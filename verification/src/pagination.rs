//! Stable, direction-aware pagination over the ranked collection.
//!
//! A [`PaginationCursor`] marks a position by sort-key value (the rank),
//! never by offset, so insertions or deletions outside the range already
//! returned do not shift later pages. The rank is unique in a densely
//! ranked collection, so the sort key is its own tiebreaker. Cursors
//! travel as opaque ASCII tokens; decoding validates structural
//! well-formedness and accepts exactly the tokens this module produces.
//! A well-formed cursor whose record has meanwhile been deleted is not an
//! error: paging continues from the nearest remaining position.

use vstd::prelude::*;
use crate::demon::Demon;
use crate::error::{Field, PointercrateError, Reason, ValidationFailure};
use crate::list::DemonList;

verus! {

/// Which way a page walks the collection from its cursor.
#[derive(Clone, Copy, PartialEq, Eq, Structural, Debug)]
pub enum Direction {
    Forward,
    Backward,
}

/// An opaque, order-preserving position marker: resources strictly after
/// (forward) or strictly before (backward) rank `key` are returned.
#[derive(Clone, Copy, PartialEq, Eq, Structural, Debug)]
pub struct PaginationCursor {
    pub key: u16,
    pub direction: Direction,
}

/// The decimal digits of `n`, most significant first, as ASCII bytes.
pub open spec fn dec_digits(n: nat) -> Seq<u8>
    decreases n,
{
    if n < 10 {
        seq![(n + 48) as u8]
    } else {
        dec_digits(n / 10).push(((n % 10) + 48) as u8)
    }
}

/// The value of a sequence of ASCII digits, most significant first.
pub open spec fn digits_val(s: Seq<u8>) -> int
    decreases s.len(),
{
    if s.len() == 0 {
        0
    } else {
        digits_val(s.drop_last()) * 10 + (s.last() - 48)
    }
}

/// Every byte is an ASCII digit.
pub open spec fn all_digits(s: Seq<u8>) -> bool {
    forall|i: int| 0 <= i < s.len() ==> 48 <= #[trigger] s[i] <= 57
}

/// The direction marker byte: `f` forward, `b` backward.
pub open spec fn dir_byte(d: Direction) -> u8 {
    if d is Forward {
        102
    } else {
        98
    }
}

/// The token a cursor encodes to: direction marker, colon, decimal rank.
pub open spec fn spec_encode(c: PaginationCursor) -> Seq<u8> {
    seq![dir_byte(c.direction), 58u8] + dec_digits(c.key as nat)
}

/// The decimal digits of a value are never empty, are all digits, lead
/// with a zero only for the value zero, and evaluate back to the value.
pub proof fn lemma_dec_digits(n: nat)
    ensures
        dec_digits(n).len() >= 1,
        all_digits(dec_digits(n)),
        digits_val(dec_digits(n)) == n,
        dec_digits(n)[0] == 48 <==> n == 0,
    decreases n,
{
    if n < 10 {
        let s = dec_digits(n);
        assert(s =~= seq![(n + 48) as u8]);
        assert(s.drop_last() =~= Seq::<u8>::empty());
        assert(digits_val(Seq::<u8>::empty()) == 0);
        assert(digits_val(s) == digits_val(s.drop_last()) * 10 + (s.last() - 48));
    } else {
        lemma_dec_digits(n / 10);
        let s = dec_digits(n);
        assert(s.drop_last() =~= dec_digits(n / 10));
        assert(digits_val(s) == (n / 10) * 10 + (n % 10));
        assert(s[0] == dec_digits(n / 10)[0]);
    }
}

/// Digit sequences are non-negative, and strictly positive when they lead
/// with a non-zero digit.
pub proof fn lemma_digits_val_bounds(s: Seq<u8>)
    requires
        all_digits(s),
    ensures
        digits_val(s) >= 0,
        s.len() >= 1 && s[0] > 48 ==> digits_val(s) >= 1,
    decreases s.len(),
{
    if s.len() > 0 {
        lemma_digits_val_bounds(s.drop_last());
    }
}

/// A non-empty digit sequence without a spurious leading zero is the
/// decimal form of its own value: decoding is the inverse of encoding.
pub proof fn lemma_digits_canonical(s: Seq<u8>)
    requires
        all_digits(s),
        s.len() >= 1,
        s[0] == 48 ==> s.len() == 1,
    ensures
        s == dec_digits(digits_val(s) as nat),
    decreases s.len(),
{
    lemma_digits_val_bounds(s);
    let n = digits_val(s);
    if s.len() == 1 {
        assert(s.drop_last() =~= Seq::<u8>::empty());
        assert(digits_val(Seq::<u8>::empty()) == 0);
        assert(n == s[0] - 48);
        assert(s =~= dec_digits(n as nat));
    } else {
        let p = s.drop_last();
        assert(p[0] == s[0]);
        lemma_digits_canonical(p);
        lemma_digits_val_bounds(p);
        assert(p[0] > 48);
        assert(digits_val(p) >= 1);
        assert(n == digits_val(p) * 10 + (s.last() - 48));
        assert(n >= 10);
        assert(n / 10 == digits_val(p) && n % 10 == s.last() - 48) by {
            assert(0 <= s.last() - 48 < 10);
        };
        assert(dec_digits(n as nat) =~= dec_digits((n / 10) as nat).push(
            ((n % 10) + 48) as u8,
        ));
        assert(s =~= p.push(s.last()));
    }
}

/// Extending a digit sequence on the right never shrinks its value.
pub proof fn lemma_digits_val_prefix(s: Seq<u8>, k: int)
    requires
        all_digits(s),
        0 <= k <= s.len(),
    ensures
        digits_val(s) >= digits_val(s.subrange(0, k)),
    decreases s.len() - k,
{
    if k < s.len() {
        lemma_digits_val_prefix(s, k + 1);
        let p = s.subrange(0, k + 1);
        assert(p.drop_last() =~= s.subrange(0, k));
        assert(all_digits(p.drop_last()));
        lemma_digits_val_bounds(p.drop_last());
        assert(digits_val(p) == digits_val(s.subrange(0, k)) * 10 + (p.last() - 48));
    } else {
        assert(s.subrange(0, k) =~= s);
    }
}

/// Encoding is injective: distinct cursors yield distinct tokens.
pub proof fn lemma_encode_injective(a: PaginationCursor, b: PaginationCursor)
    requires
        spec_encode(a) == spec_encode(b),
    ensures
        a == b,
{
    lemma_dec_digits(a.key as nat);
    lemma_dec_digits(b.key as nat);
    assert(spec_encode(a)[0] == dir_byte(a.direction));
    assert(spec_encode(a).subrange(2, spec_encode(a).len() as int) =~= dec_digits(a.key as nat));
    assert(spec_encode(b).subrange(2, spec_encode(b).len() as int) =~= dec_digits(b.key as nat));
}

/// Appends the decimal digits of `n`.
fn push_digits(n: u16, out: &mut Vec<u8>)
    ensures
        final(out)@ == old(out)@ + dec_digits(n as nat),
    decreases n,
{
    if n < 10 {
        out.push((n as u8) + 48);
        proof {
            assert(out@ =~= old(out)@ + dec_digits(n as nat));
        }
    } else {
        push_digits(n / 10, out);
        out.push(((n % 10) as u8) + 48);
        proof {
            assert(out@ =~= old(out)@ + dec_digits(n as nat));
        }
    }
}

/// The single failure a malformed cursor token reports.
pub open spec fn cursor_failure() -> Seq<ValidationFailure> {
    seq![ValidationFailure { field: Field::Cursor, reason: Reason::Malformed }]
}

fn malformed() -> (r: PointercrateError)
    ensures
        r matches PointercrateError::ValidationError(errs) && errs@ == cursor_failure(),
{
    let mut errs: Vec<ValidationFailure> = Vec::new();
    errs.push(ValidationFailure { field: Field::Cursor, reason: Reason::Malformed });
    proof {
        assert(errs@ =~= cursor_failure());
    }
    PointercrateError::ValidationError(errs)
}

impl PaginationCursor {
    /// Encodes this cursor as an opaque ASCII token, safe to embed in a
    /// link.
    pub fn encode(&self) -> (r: Vec<u8>)
        ensures
            r@ == spec_encode(*self),
    {
        let mut out: Vec<u8> = Vec::new();
        out.push(
            match self.direction {
                Direction::Forward => 102,
                Direction::Backward => 98,
            },
        );
        out.push(58);
        push_digits(self.key, &mut out);
        proof {
            assert(out@ =~= spec_encode(*self));
        }
        out
    }

    /// Decodes a token. Accepts exactly the tokens [`Self::encode`]
    /// produces: a token this system never produced is rejected as
    /// malformed rather than yielding an incorrect position.
    pub fn decode(bytes: &Vec<u8>) -> (r: Result<PaginationCursor, PointercrateError>)
        ensures
            r matches Ok(c) ==> bytes@ == spec_encode(c),
            r is Err ==> forall|c: PaginationCursor| bytes@ != spec_encode(c),
            r is Err ==> (r matches Err(PointercrateError::ValidationError(errs)) && errs@
                == cursor_failure()),
    {
        proof {
            assert forall|c: PaginationCursor| spec_encode(c).len() >= 3 by {
                lemma_dec_digits(c.key as nat);
            }
        }
        if bytes.len() < 3 {
            return Err(malformed());
        }
        let direction = if bytes[0] == 102 {
            Direction::Forward
        } else if bytes[0] == 98 {
            Direction::Backward
        } else {
            proof {
                assert forall|c: PaginationCursor| bytes@ != spec_encode(c) by {
                    assert(spec_encode(c)[0] == 102 || spec_encode(c)[0] == 98);
                }
            }
            return Err(malformed());
        };
        if bytes[1] != 58 {
            proof {
                assert forall|c: PaginationCursor| bytes@ != spec_encode(c) by {
                    assert(spec_encode(c)[1] == 58);
                }
            }
            return Err(malformed());
        }
        if bytes[2] == 48 && bytes.len() > 3 {
            proof {
                assert forall|c: PaginationCursor| bytes@ != spec_encode(c) by {
                    lemma_dec_digits(c.key as nat);
                    if bytes@ == spec_encode(c) {
                        assert(dec_digits(c.key as nat)[0] == bytes@[2]);
                        assert(c.key == 0);
                        assert(dec_digits(0).len() == 1);
                    }
                }
            }
            return Err(malformed());
        }

        let n = bytes.len();
        let ghost digits = bytes@.subrange(2, n as int);
        let mut acc: u32 = 0;
        let mut i: usize = 2;
        while i < n
            invariant
                2 <= i <= n,
                n == bytes@.len(),
                3 <= n,
                digits == bytes@.subrange(2, n as int),
                all_digits(bytes@.subrange(2, i as int)),
                acc == digits_val(bytes@.subrange(2, i as int)),
                acc <= 65535,
            decreases n - i,
        {
            let b = bytes[i];
            if !(48 <= b && b <= 57) {
                proof {
                    assert forall|c: PaginationCursor| bytes@ != spec_encode(c) by {
                        lemma_dec_digits(c.key as nat);
                        if bytes@ == spec_encode(c) {
                            assert(bytes@[i as int] == dec_digits(c.key as nat)[i - 2]);
                        }
                    }
                }
                return Err(malformed());
            }
            proof {
                assert(bytes@.subrange(2, i + 1).drop_last() =~= bytes@.subrange(2, i as int));
            }
            acc = acc * 10 + ((b - 48) as u32);
            i = i + 1;
            if acc > 65535 {
                proof {
                    assert forall|c: PaginationCursor| bytes@ != spec_encode(c) by {
                        lemma_dec_digits(c.key as nat);
                        if bytes@ == spec_encode(c) {
                            assert(digits =~= dec_digits(c.key as nat));
                            assert(all_digits(digits));
                            lemma_digits_val_prefix(digits, i - 2);
                            assert(bytes@.subrange(2, i as int) =~= digits.subrange(0, i - 2));
                            assert(digits_val(digits) >= acc > 65535);
                        }
                    }
                }
                return Err(malformed());
            }
        }
        proof {
            assert(bytes@.subrange(2, i as int) =~= digits);
            lemma_digits_canonical(digits);
            assert(bytes@ =~= seq![bytes@[0], 58u8] + digits);
        }
        Ok(PaginationCursor { key: acc as u16, direction })
    }
}

/// The index window `[start, end)` a page request selects: forward pages
/// take the first `limit` resources ranked strictly after the key,
/// backward pages the last `limit` ranked strictly before it; no cursor
/// starts at the top. A key whose resource is gone selects the nearest
/// remaining positions, by value, never by offset.
pub open spec fn page_window(len: int, c: Option<PaginationCursor>, limit: int) -> (int, int) {
    match c {
        Option::None => (0, if limit <= len { limit } else { len }),
        Option::Some(cur) => {
            if cur.direction is Forward {
                let start = if cur.key <= len { cur.key as int } else { len };
                let end = if cur.key + limit <= len { cur.key + limit } else { len };
                (start, end)
            } else {
                let end0 = if cur.key - 1 <= len { cur.key - 1 } else { len };
                let end = if end0 >= 0 { end0 } else { 0 };
                let start = if end - limit >= 0 { end - limit } else { 0 };
                (start, end)
            }
        },
    }
}

/// Law (cursor stability): a forward window begins exactly at its cursor
/// key however the collection's length has changed meanwhile, provided
/// that many positions remain — so positions already returned below the
/// key are never repeated, and no remaining position below `key + limit`
/// is skipped. The cursor marks a sort-key value, never an offset.
pub proof fn lemma_forward_window_stable(len: int, limit: int, key: u16)
    requires
        0 <= key <= len,
        0 <= limit,
    ensures
        page_window(
            len,
            Option::Some(PaginationCursor { key, direction: Direction::Forward }),
            limit,
        ).0 == key,
        page_window(
            len,
            Option::Some(PaginationCursor { key, direction: Direction::Forward }),
            limit,
        ).1 == if key + limit <= len {
            key + limit
        } else {
            len
        },
{
}

/// Law (no gaps, no overlap): when a page is not the last, the window
/// selected by the cursor it returns begins exactly where this page's
/// window ended.
pub proof fn lemma_forward_pages_chain(len: int, limit: int, cursor: Option<PaginationCursor>)
    requires
        0 <= limit,
        0 <= len <= 0x7ffe,
    ensures
        ({
            let w = page_window(len, cursor, limit);
            w.1 < len ==> page_window(
                len,
                Option::Some(PaginationCursor { key: w.1 as u16, direction: Direction::Forward }),
                limit,
            ).0 == w.1
        }),
{
}

impl DemonList {
    /// One page of the collection: the resources in the window the cursor
    /// and limit select, in rank order, plus the cursors that continue
    /// the walk — forward from the last returned rank, backward from the
    /// first. Read-only and permission-free.
    pub fn page(&self, cursor: Option<&PaginationCursor>, limit: usize) -> (r: (
        Vec<Demon>,
        Option<PaginationCursor>,
        Option<PaginationCursor>,
    ))
        requires
            self.wf(),
            limit <= 0x7ffe,
        ensures
            ({
                let win = page_window(
                    self@.len() as int,
                    match cursor {
                        Option::Some(c) => Option::Some(*c),
                        Option::None => Option::None,
                    },
                    limit as int,
                );
                &&& r.0@.map_values(|d: Demon| d@) == self@.subrange(win.0, win.1)
                &&& r.1 == (if win.1 < self@.len() {
                    Option::Some(PaginationCursor { key: win.1 as u16, direction: Direction::Forward })
                } else {
                    Option::None::<PaginationCursor>
                })
                &&& r.2 == (if win.0 > 0 {
                    Option::Some(
                        PaginationCursor { key: (win.0 + 1) as u16, direction: Direction::Backward },
                    )
                } else {
                    Option::None::<PaginationCursor>
                })
            }),
    {
        let rows = self.rows();
        let n = rows.len();
        let (start, end): (usize, usize) = match cursor {
            Option::None => (0, if limit <= n { limit } else { n }),
            Option::Some(cur) => {
                if cur.direction == Direction::Forward {
                    let start = if cur.key as usize <= n { cur.key as usize } else { n };
                    let end = if cur.key as usize + limit <= n { cur.key as usize + limit } else { n };
                    (start, end)
                } else {
                    let end = if cur.key == 0 { 0 } else if cur.key as usize - 1 <= n {
                        cur.key as usize - 1
                    } else {
                        n
                    };
                    let start = if end >= limit { end - limit } else { 0 };
                    (start, end)
                }
            },
        };
        let mut out: Vec<Demon> = Vec::new();
        let mut i: usize = start;
        while i < end
            invariant
                start <= i <= end,
                end <= rows@.len(),
                rows@.map_values(|d: Demon| d@) == self@,
                out@.len() == i - start,
                forall|j: int| 0 <= j < out@.len() ==> #[trigger] out@[j]@ == self@[start + j],
            decreases end - i,
        {
            out.push(rows[i].clone());
            proof {
                assert(self@[i as int] == rows@.map_values(|d: Demon| d@)[i as int]);
            }
            i = i + 1;
        }
        proof {
            assert(out@.map_values(|d: Demon| d@) =~= self@.subrange(start as int, end as int));
        }
        let next = if end < n {
            Option::Some(PaginationCursor { key: end as u16, direction: Direction::Forward })
        } else {
            Option::None
        };
        let prev = if start > 0 {
            Option::Some(PaginationCursor { key: (start + 1) as u16, direction: Direction::Backward })
        } else {
            Option::None
        };
        (out, next, prev)
    }
}

} // verus!
