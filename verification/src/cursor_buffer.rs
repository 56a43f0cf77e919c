//! An editable line buffer with a cursor: locations address positions
//! either absolutely or relative to the cursor, and edits keep the
//! cursor inside the text.

use vstd::prelude::*;

use crate::subst::{chars_to_string, str_to_chars};

verus! {

/// Errors of cursor addressing.
#[derive(Debug, PartialEq, Eq)]
pub enum Error {
    /// A relative offset that leaves the buffer.
    InvalidRelativeLocation(isize),
    /// An absolute index past the end of the buffer.
    InvalidAbsoluteLocation(usize),
    /// A deletion reaching past the end of the buffer.
    DeletingTooMuch,
}

/// A position in the buffer.
#[derive(Clone, Copy, PartialEq, Eq, Structural, Debug)]
pub enum Location {
    /// Absolute index.
    Abs(usize),
    /// Offset relative to the cursor.
    Rel(isize),
}

#[allow(non_snake_case)]
impl Location {
    /// The location at the cursor: a relative offset of zero.
    pub fn Cursor() -> (r: Location)
        ensures
            r == Location::Rel(0isize),
    {
        Location::Rel(0)
    }

    /// The location just before the cursor.
    pub fn Before() -> (r: Location)
        ensures
            r == Location::Rel(-1isize),
    {
        Location::Rel(-1)
    }

    /// The location just after the cursor.
    pub fn After() -> (r: Location)
        ensures
            r == Location::Rel(1isize),
    {
        Location::Rel(1)
    }

    /// The location at the start of the buffer.
    pub fn Front() -> (r: Location)
        ensures
            r == Location::Abs(0usize),
    {
        Location::Abs(0)
    }
}

impl Default for Location {
    /// The default location is the cursor itself.
    fn default() -> (r: Location)
        ensures
            r == Location::Rel(0isize),
    {
        Location::Rel(0)
    }
}

/// What a location stands for in a buffer of length `len` with the
/// cursor at `cursor`, when it stays inside the buffer.
pub open spec fn resolve_spec(loc: Location, cursor: int, len: int) -> Option<int> {
    match loc {
        Location::Abs(i) => if i <= len {
            Option::Some(i as int)
        } else {
            Option::None
        },
        Location::Rel(off) => if 0 <= cursor + off <= len {
            Option::Some(cursor + off)
        } else {
            Option::None
        },
    }
}

/// Turn a location into an absolute index of a buffer of length `len`
/// with the cursor at `cursor`; a location outside the buffer is the
/// error carrying it.
pub fn to_absolute(loc: Location, cursor: usize, len: usize) -> (r: Result<usize, Error>)
    requires
        cursor <= len,
    ensures
        match resolve_spec(loc, cursor as int, len as int) {
            Option::Some(i) => r matches Ok(a) && a as int == i,
            Option::None => match loc {
                Location::Abs(i) => r == Err::<usize, Error>(Error::InvalidAbsoluteLocation(i)),
                Location::Rel(off) => r == Err::<usize, Error>(
                    Error::InvalidRelativeLocation(off),
                ),
            },
        },
{
    match loc {
        Location::Abs(i) => {
            if i <= len {
                Result::Ok(i)
            } else {
                Result::Err(Error::InvalidAbsoluteLocation(i))
            }
        },
        Location::Rel(off) => {
            if off >= 0 {
                let delta = off as usize;
                if delta <= len - cursor {
                    Result::Ok(cursor + delta)
                } else {
                    Result::Err(Error::InvalidRelativeLocation(off))
                }
            } else {
                let delta: usize = if off == isize::MIN {
                    (isize::MAX as usize) + 1
                } else {
                    (-off) as usize
                };
                if delta <= cursor {
                    Result::Ok(cursor - delta)
                } else {
                    Result::Err(Error::InvalidRelativeLocation(off))
                }
            }
        },
    }
}

/// An editable line of text with a cursor. The cursor is an absolute
/// index that always points *before* a character: 0 is before the
/// first, and the text length is after the last, so every value in
/// `0..=len` is valid.
pub struct CursorBuffer {
    data: Vec<char>,
    cursor: usize,
}

impl CursorBuffer {
    /// The buffer's text.
    pub closed spec fn text(self) -> Seq<char> {
        self.data@
    }

    /// Where the cursor stands.
    pub closed spec fn cursor_spec(self) -> nat {
        self.cursor as nat
    }

    /// The cursor never leaves the text.
    pub open spec fn wf(self) -> bool {
        self.cursor_spec() <= self.text().len()
    }

    /// An empty buffer.
    pub fn new() -> (r: CursorBuffer)
        ensures
            r.wf(),
            r.text() == Seq::<char>::empty(),
            r.cursor_spec() == 0,
    {
        CursorBuffer { data: Vec::new(), cursor: 0 }
    }

    /// A buffer over the given text, with the cursor at the front.
    pub fn from_str(text: &String) -> (r: CursorBuffer)
        ensures
            r.wf(),
            r.text() == text@,
            r.cursor_spec() == 0,
    {
        CursorBuffer { data: str_to_chars(text), cursor: 0 }
    }

    /// The current cursor index.
    pub fn cursor(&self) -> (r: usize)
        ensures
            r as nat == self.cursor_spec(),
    {
        self.cursor
    }

    /// The text's length in characters.
    pub fn len(&self) -> (r: usize)
        ensures
            r as nat == self.text().len(),
    {
        self.data.len()
    }

    /// The buffer's text as a word.
    pub fn to_text(&self) -> (r: String)
        ensures
            r@ == self.text(),
    {
        chars_to_string(&self.data)
    }

    /// Resolve a location against this buffer.
    pub fn to_absolute(&self, loc: Location) -> (r: Result<usize, Error>)
        requires
            self.wf(),
        ensures
            match resolve_spec(loc, self.cursor_spec() as int, self.text().len() as int) {
                Option::Some(i) => r matches Ok(a) && a as int == i,
                Option::None => r.is_err(),
            },
    {
        to_absolute(loc, self.cursor, self.data.len())
    }

    /// Move the cursor to a location; a location outside the buffer is
    /// refused and moves nothing.
    pub fn move_cursor(&mut self, loc: Location) -> (r: Result<(), Error>)
        requires
            old(self).wf(),
        ensures
            final(self).wf(),
            final(self).text() == old(self).text(),
            match resolve_spec(
                loc,
                old(self).cursor_spec() as int,
                old(self).text().len() as int,
            ) {
                Option::Some(i) => r.is_ok() && final(self).cursor_spec() as int == i,
                Option::None => r.is_err() && final(self).cursor_spec() == old(self).cursor_spec(),
            },
    {
        match to_absolute(loc, self.cursor, self.data.len()) {
            Result::Ok(i) => {
                self.cursor = i;
                Result::Ok(())
            },
            Result::Err(e) => Result::Err(e),
        }
    }

    /// Insert text at a location and leave the cursor just after what
    /// was inserted; a location outside the buffer is refused and
    /// changes nothing.
    pub fn insert(&mut self, loc: Location, text: &String) -> (r: Result<(), Error>)
        requires
            old(self).wf(),
        ensures
            final(self).wf(),
            match resolve_spec(
                loc,
                old(self).cursor_spec() as int,
                old(self).text().len() as int,
            ) {
                Option::Some(i) => r.is_ok() && final(self).text() == old(self).text().subrange(
                    0,
                    i,
                ) + text@ + old(self).text().skip(i) && final(self).cursor_spec() as int == i
                    + text@.len(),
                Option::None => r.is_err() && final(self).text() == old(self).text() && final(self).cursor_spec() == old(self).cursor_spec(),
            },
    {
        let idx = match to_absolute(loc, self.cursor, self.data.len()) {
            Result::Ok(i) => i,
            Result::Err(e) => {
                return Result::Err(e);
            },
        };
        let tchars = str_to_chars(text);
        let mut out: Vec<char> = Vec::new();
        let mut k: usize = 0;
        while k < idx
            invariant
                idx <= self.data@.len(),
                k <= idx,
                out@ == self.data@.subrange(0, k as int),
            decreases idx - k,
        {
            out.push(self.data[k]);
            k += 1;
            proof {
                assert(out@ =~= self.data@.subrange(0, k as int));
            }
        }
        let mut k2: usize = 0;
        while k2 < tchars.len()
            invariant
                idx <= self.data@.len(),
                k2 <= tchars@.len(),
                out@ == self.data@.subrange(0, idx as int) + tchars@.subrange(0, k2 as int),
            decreases tchars@.len() - k2,
        {
            out.push(tchars[k2]);
            k2 += 1;
            proof {
                assert(out@ =~= self.data@.subrange(0, idx as int) + tchars@.subrange(
                    0,
                    k2 as int,
                ));
            }
        }
        let mut k3: usize = idx;
        while k3 < self.data.len()
            invariant
                idx <= k3 <= self.data@.len(),
                out@ == self.data@.subrange(0, idx as int) + tchars@ + self.data@.subrange(
                    idx as int,
                    k3 as int,
                ),
            decreases self.data@.len() - k3,
        {
            out.push(self.data[k3]);
            k3 += 1;
            proof {
                assert(out@ =~= self.data@.subrange(0, idx as int) + tchars@ + self.data@.subrange(
                    idx as int,
                    k3 as int,
                ));
            }
        }
        proof {
            assert(tchars@.subrange(0, tchars@.len() as int) =~= tchars@);
            assert(self.data@.subrange(idx as int, self.data@.len() as int) =~= self.data@.skip(
                idx as int,
            ));
            assert(out@.len() == idx + tchars@.len() + (self.data@.len() - idx));
        }
        let total = out.len();
        let new_cursor = total - (self.data.len() - idx);
        self.data = out;
        self.cursor = new_cursor;
        Result::Ok(())
    }

    /// Delete the text between two locations (in either order) and
    /// move the cursor to the start of what was deleted; a location
    /// outside the buffer is refused and changes nothing.
    pub fn delete(&mut self, start: Location, end: Location) -> (r: Result<(), Error>)
        requires
            old(self).wf(),
        ensures
            final(self).wf(),
            ({
                let a = resolve_spec(
                    start,
                    old(self).cursor_spec() as int,
                    old(self).text().len() as int,
                );
                let b = resolve_spec(
                    end,
                    old(self).cursor_spec() as int,
                    old(self).text().len() as int,
                );
                if a is Some && b is Some {
                    let lo = if a->0 <= b->0 {
                        a->0
                    } else {
                        b->0
                    };
                    let hi = if a->0 <= b->0 {
                        b->0
                    } else {
                        a->0
                    };
                    r.is_ok() && final(self).text() == old(self).text().subrange(0, lo) + old(self).text().skip(hi) && final(self).cursor_spec() as int == lo
                } else {
                    r.is_err() && final(self).text() == old(self).text() && final(self).cursor_spec() == old(self).cursor_spec()
                }
            }),
    {
        let a = match to_absolute(start, self.cursor, self.data.len()) {
            Result::Ok(i) => i,
            Result::Err(e) => {
                return Result::Err(e);
            },
        };
        let b = match to_absolute(end, self.cursor, self.data.len()) {
            Result::Ok(i) => i,
            Result::Err(e) => {
                return Result::Err(e);
            },
        };
        let lo = if a <= b {
            a
        } else {
            b
        };
        let hi = if a <= b {
            b
        } else {
            a
        };
        let mut out: Vec<char> = Vec::new();
        let mut k: usize = 0;
        while k < lo
            invariant
                lo <= hi <= self.data@.len(),
                k <= lo,
                out@ == self.data@.subrange(0, k as int),
            decreases lo - k,
        {
            out.push(self.data[k]);
            k += 1;
            proof {
                assert(out@ =~= self.data@.subrange(0, k as int));
            }
        }
        let mut k2: usize = hi;
        while k2 < self.data.len()
            invariant
                lo <= hi <= k2 <= self.data@.len(),
                out@ == self.data@.subrange(0, lo as int) + self.data@.subrange(
                    hi as int,
                    k2 as int,
                ),
            decreases self.data@.len() - k2,
        {
            out.push(self.data[k2]);
            k2 += 1;
            proof {
                assert(out@ =~= self.data@.subrange(0, lo as int) + self.data@.subrange(
                    hi as int,
                    k2 as int,
                ));
            }
        }
        proof {
            assert(self.data@.subrange(hi as int, self.data@.len() as int) =~= self.data@.skip(
                hi as int,
            ));
        }
        self.data = out;
        self.cursor = lo;
        Result::Ok(())
    }

    /// Empty the text and reset the cursor.
    pub fn clear(&mut self)
        ensures
            final(self).wf(),
            final(self).text() == Seq::<char>::empty(),
            final(self).cursor_spec() == 0,
    {
        self.data = Vec::new();
        self.cursor = 0;
    }

    /// The character at a location, when the location resolves to a
    /// position before the end of the text.
    pub fn char_at(&self, loc: Location) -> (r: Option<char>)
        requires
            self.wf(),
        ensures
            match resolve_spec(loc, self.cursor_spec() as int, self.text().len() as int) {
                Option::Some(i) => if i < self.text().len() {
                    r == Option::Some(self.text()[i])
                } else {
                    r is None
                },
                Option::None => r is None,
            },
    {
        match to_absolute(loc, self.cursor, self.data.len()) {
            Result::Ok(i) => {
                if i < self.data.len() {
                    Option::Some(self.data[i])
                } else {
                    Option::None
                }
            },
            Result::Err(_) => Option::None,
        }
    }

    /// Replace the whole text and reset the cursor to the front.
    pub fn set_string(&mut self, s: &String)
        ensures
            final(self).wf(),
            final(self).text() == s@,
            final(self).cursor_spec() == 0,
    {
        self.data = str_to_chars(s);
        self.cursor = 0;
    }
}

} // verus!
