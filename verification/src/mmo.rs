//! The blob file: blocks of a four-byte little-endian length and that many
//! bytes, each found by its offset.

use crate::endian::le_unsigned;
use crate::endian::read_u32;
use crate::error::EngineError;
use crate::text::blob_text;
use crate::text::decode_blob;
use vstd::prelude::*;
use vstd::slice::slice_subrange;
use vstd::slice::slice_to_vec;

verus! {

/// One block of a blob file.
#[derive(Clone, Debug, PartialEq, Eq)]
pub struct MmoBlock {
    /// Where the block starts in the file.
    pub offset: u32,
    /// How many bytes of data the block holds.
    pub length: u32,
    /// The block's data.
    pub data: Vec<u8>,
    /// The data as text, where it could be decoded.
    pub text: Option<String>,
}

/// A block as contracts speak of it.
pub struct BlockSpec {
    pub offset: u32,
    pub length: u32,
    pub data: Seq<u8>,
    pub text: Option<Seq<char>>,
}

impl View for MmoBlock {
    type V = BlockSpec;

    open spec fn view(&self) -> BlockSpec {
        BlockSpec {
            offset: self.offset,
            length: self.length,
            data: self.data@,
            text: match self.text {
                Some(t) => Some(t@),
                None => None,
            },
        }
    }
}

/// The length that the block at `offset` announces, if the file holds the
/// four bytes of it.
pub open spec fn block_length(file: Seq<u8>, offset: nat) -> Option<nat> {
    if offset + 4 <= file.len() {
        Some(le_unsigned(file.subrange(offset as int, offset as int + 4), 4))
    } else {
        None
    }
}

/// The block at `offset`, if the file holds its length and all its data.
pub open spec fn block_at(file: Seq<u8>, offset: u32) -> Option<BlockSpec> {
    match block_length(file, offset as nat) {
        Some(length) if offset + 4 + length <= file.len() => {
            let data = file.subrange(offset + 4, offset + 4 + length);
            Some(BlockSpec { offset, length: length as u32, data, text: blob_text(data) })
        },
        _ => None,
    }
}

/// A blob file in memory.
pub struct MmoFile {
    bytes: Vec<u8>,
}

impl MmoFile {
    /// The bytes of the file.
    pub closed spec fn contents(&self) -> Seq<u8> {
        self.bytes@
    }

    /// Takes the bytes of a blob file.
    pub fn open(bytes: Vec<u8>) -> (file: MmoFile)
        ensures
            file.contents() == bytes@,
    {
        MmoFile { bytes }
    }

    /// Reads the block at `offset`. Fails where the file ends before the
    /// block does.
    pub fn read_block(&self, offset: u32) -> (result: Result<MmoBlock, EngineError>)
        ensures
            match result {
                Ok(block) => block_at(self.contents(), offset) == Some(block@),
                Err(e) => e == EngineError::Io && block_at(self.contents(), offset).is_none(),
            },
    {
        let file = self.bytes.as_slice();
        let file_len: u64 = file.len() as u64;
        let start: u64 = offset as u64;
        if start + 4 > file_len {
            return Err(EngineError::Io);
        }
        let length: u32 = read_u32(slice_subrange(file, start as usize, (start + 4) as usize));
        if start + 4 + (length as u64) > file_len {
            return Err(EngineError::Io);
        }
        let stored = slice_subrange(
            file,
            (start + 4) as usize,
            (start + 4 + (length as u64)) as usize,
        );
        let text = decode_blob(stored);
        let data = slice_to_vec(stored);
        Ok(MmoBlock { offset, length, data, text })
    }

    /// Reads the block at `offset` and returns its text. Fails where the
    /// block cannot be read, or where it holds no text.
    pub fn read_text(&self, offset: u32) -> (result: Result<String, EngineError>)
        ensures
            match result {
                Ok(text) => block_at(self.contents(), offset) matches Some(block) && block.text
                    == Some(text@),
                Err(e) => match block_at(self.contents(), offset) {
                    Some(block) => e == EngineError::Decode && block.text.is_none(),
                    None => e == EngineError::Io,
                },
            },
    {
        match self.read_block(offset) {
            Ok(block) => match block.text {
                Some(text) => Ok(text),
                None => Err(EngineError::Decode),
            },
            Err(e) => Err(e),
        }
    }

    /// Reads the block at `offset` and returns its data as it is stored.
    pub fn read_raw(&self, offset: u32) -> (result: Result<Vec<u8>, EngineError>)
        ensures
            match result {
                Ok(data) => block_at(self.contents(), offset) matches Some(block) && block.data
                    == data@,
                Err(e) => e == EngineError::Io && block_at(self.contents(), offset).is_none(),
            },
    {
        match self.read_block(offset) {
            Ok(block) => Ok(block.data),
            Err(e) => Err(e),
        }
    }
}

} // verus!
