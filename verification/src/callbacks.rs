//! The plain values that a C interface exchanges with the core: the result of an interpreter
//! method, and the result of a memory callback.

use vstd::prelude::*;

verus! {

/// Return value of the `cycle_until_exception`, `loop_until_exception_stop` and `interpreter_exception` functions.
#[derive(Clone, Copy, Debug, PartialEq, Eq, Structural)]
pub struct ExceptionResult {
    /// The number of cycles executed.
    pub cycles: usize,
    /// 0 if no exception occured, the vector number that occured otherwise.
    pub exception: u8,
}

impl ExceptionResult {
    /// The result of an interpreter method: its cycles, and the vector of the exception that
    /// occured, 0 for none.
    pub fn from_result(r: (usize, Option<u8>)) -> (res: Self)
        ensures
            res.cycles == r.0,
            res.exception == (match r.1 {
                Some(v) => v,
                None => 0u8,
            }),
    {
        let (cycles, vector) = r;
        ExceptionResult {
            cycles,
            exception: match vector {
                Some(v) => v,
                None => 0,
            },
        }
    }
}

/// Return type of the memory callback functions.
#[derive(Clone, Copy, Debug, PartialEq, Eq, Structural)]
pub struct GetSetResult {
    /// Set to the value to be returned. Only the low order bytes are read depending on the size. Unused with SetResult.
    pub data: u32,
    /// Set to 0 if read successfully, set to 2 (Access Error) otherwise (Address errors are automatically detected by the library).
    ///
    /// If used as the return value of a peek of the next word, this field contains the exception vector that occured
    /// when trying to read the next word.
    pub exception: u8,
}

impl GetSetResult {
    /// The byte that a read callback returned: the low byte of the data if it succeeded.
    pub fn byte(&self) -> (r: Option<u8>)
        ensures
            r == (if self.exception == 0 { Some((self.data % 0x100) as u8) } else { None::<u8> }),
    {
        if self.exception == 0 {
            Some((self.data % 0x100) as u8)
        } else {
            None
        }
    }

    /// The word that a read callback returned: the low word of the data if it succeeded.
    pub fn word(&self) -> (r: Option<u16>)
        ensures
            r == (if self.exception == 0 { Some((self.data % 0x1_0000) as u16) } else { None::<u16> }),
    {
        if self.exception == 0 {
            Some((self.data % 0x1_0000) as u16)
        } else {
            None
        }
    }

    /// The long that a read callback returned, if it succeeded.
    pub fn long(&self) -> (r: Option<u32>)
        ensures
            r == (if self.exception == 0 { Some(self.data) } else { None::<u32> }),
    {
        if self.exception == 0 {
            Some(self.data)
        } else {
            None
        }
    }

    /// Whether a write callback succeeded.
    pub fn written(&self) -> (r: Option<()>)
        ensures
            r == (if self.exception == 0 { Some(()) } else { None::<()> }),
    {
        if self.exception == 0 {
            Some(())
        } else {
            None
        }
    }

    /// The result of reading the next word: the word and 0, or 0 and the exception vector.
    pub fn from_word(r: Result<u16, u8>) -> (res: Self)
        ensures
            r matches Ok(w) ==> res == (GetSetResult { data: w as u32, exception: 0 }),
            r matches Err(v) ==> res == (GetSetResult { data: 0, exception: v }),
    {
        match r {
            Ok(data) => GetSetResult { data: data as u32, exception: 0 },
            Err(vec) => GetSetResult { data: 0, exception: vec },
        }
    }
}

} // verus!
