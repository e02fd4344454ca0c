//! Decisions behind interaction events.
//!
//! Every successful reply carries a retraction control whose key names
//! the retraction command and the issuing user's id, written in
//! decimal: `clean;<id>`. This module verifies the reading of that key
//! and the permission rule deciding who may retract a reply.

use vstd::prelude::*;
use vstd::string::StrSliceExecFns;

verus! {

/// A decimal digit character.
pub open spec fn is_digit(c: char) -> bool {
    48 <= c as u32 <= 57
}

/// Numeric value of one digit character.
pub open spec fn digit_val(c: char) -> int {
    c as u32 - 48
}

/// Whether the text is made of digits only.
pub open spec fn all_digits(s: Seq<char>) -> bool {
    forall|i: int| 0 <= i < s.len() ==> is_digit(#[trigger] s[i])
}

/// Numeric value of a decimal digit string, most significant first.
pub open spec fn dec_value(s: Seq<char>) -> int
    decreases s.len(),
{
    if s.len() == 0 {
        0
    } else {
        dec_value(s.drop_last()) * 10 + digit_val(s[s.len() - 1])
    }
}

/// End of the key segment starting at `i`: the position of the next
/// separator, or the end of the key.
pub open spec fn seg_end(s: Seq<char>, i: int) -> int
    decreases s.len() - i
        when 0 <= i <= s.len()
{
    if i >= s.len() {
        s.len() as int
    } else if s[i] == ';' {
        i
    } else {
        seg_end(s, i + 1)
    }
}

/// Meaning of a retraction control's key: the issuing user's id, when
/// the key's first segment names the retraction command and its second
/// segment is a decimal id a machine word can hold.
pub open spec fn cleanup_user_id(s: Seq<char>) -> Option<int> {
    let p = seg_end(s, 0);
    if p == 5 && p < s.len() && s.subrange(0, 5) == "clean"@ {
        let seg = s.subrange(6, seg_end(s, 6));
        if seg.len() > 0 && all_digits(seg) && dec_value(seg) <= u64::MAX {
            Some(dec_value(seg))
        } else {
            None
        }
    } else {
        None
    }
}

proof fn lemma_seg_end_from_scan(s: Seq<char>, i: int, q: int)
    requires
        0 <= i <= q <= s.len(),
        forall|m: int| i <= m < q ==> s[m] != ';',
        q < s.len() ==> s[q] == ';',
    ensures
        seg_end(s, i) == q,
    decreases q - i,
{
    if i < q {
        lemma_seg_end_from_scan(s, i + 1, q);
    }
}

proof fn lemma_dec_value_nonneg(s: Seq<char>)
    requires
        all_digits(s),
    ensures
        dec_value(s) >= 0,
    decreases s.len(),
{
    if s.len() > 0 {
        assert forall|i: int| 0 <= i < s.drop_last().len() implies is_digit(
            #[trigger] s.drop_last()[i],
        ) by {
            assert(s.drop_last()[i] == s[i]);
        }
        lemma_dec_value_nonneg(s.drop_last());
    }
}

proof fn lemma_dec_value_prefix_le(s: Seq<char>, k: int)
    requires
        all_digits(s),
        0 <= k <= s.len(),
    ensures
        dec_value(s.take(k)) <= dec_value(s),
    decreases s.len(),
{
    if k < s.len() {
        assert forall|i: int| 0 <= i < s.drop_last().len() implies is_digit(
            #[trigger] s.drop_last()[i],
        ) by {
            assert(s.drop_last()[i] == s[i]);
        }
        lemma_dec_value_nonneg(s.drop_last());
        lemma_dec_value_prefix_le(s.drop_last(), k);
        assert(s.take(k) =~= s.drop_last().take(k));
        assert(is_digit(s[s.len() - 1]));
    } else {
        assert(s.take(k) =~= s);
    }
}

fn find_sep(s: &str, from: usize, len: usize) -> (q: usize)
    requires
        from <= len,
        len == s@.len(),
    ensures
        from <= q <= len,
        seg_end(s@, from as int) == q,
        q < len ==> s@[q as int] == ';',
        forall|m: int| from <= m < q ==> s@[m] != ';',
    decreases len - from,
{
    let mut j = from;
    while j < len && s.get_char(j) != ';'
        invariant
            from <= j <= len,
            len == s@.len(),
            forall|m: int| from <= m < j ==> s@[m] != ';',
        decreases len - j,
    {
        j += 1;
    }
    proof {
        lemma_seg_end_from_scan(s@, from as int, j as int);
    }
    j
}

/// Read a retraction control's key. Returns the issuing user's id
/// exactly when the key means one; anything else is refused.
pub fn parse_cleanup_id(s: &str) -> (r: Option<u64>)
    ensures
        r matches Some(u) ==> cleanup_user_id(s@) == Some(u as int),
        r is None ==> cleanup_user_id(s@) is None,
{
    let len = s.unicode_len();
    let p = find_sep(s, 0, len);
    if !(p == 5 && p < len) {
        return None;
    }
    proof {
        reveal_strlit("clean");
    }
    if !(s.get_char(0) == 'c' && s.get_char(1) == 'l' && s.get_char(2) == 'e' && s.get_char(3)
        == 'a' && s.get_char(4) == 'n') {
        proof {
            assert(s@.subrange(0, 5) != "clean"@) by {
                if s@.subrange(0, 5) == "clean"@ {
                    assert(s@.subrange(0, 5)[0] == s@[0]);
                    assert(s@.subrange(0, 5)[1] == s@[1]);
                    assert(s@.subrange(0, 5)[2] == s@[2]);
                    assert(s@.subrange(0, 5)[3] == s@[3]);
                    assert(s@.subrange(0, 5)[4] == s@[4]);
                }
            }
        }
        return None;
    }
    proof {
        assert(s@.subrange(0, 5) =~= "clean"@);
    }
    let q = find_sep(s, 6, len);
    let ghost seg = s@.subrange(6, q as int);
    if q == 6 {
        proof {
            assert(seg.len() == 0);
        }
        return None;
    }
    let mut v: u64 = 0;
    let mut j: usize = 6;
    while j < q
        invariant
            6 <= j <= q <= len,
            len == s@.len(),
            seg_end(s@, 0) == 5,
            5 < len,
            s@.subrange(0, 5) == "clean"@,
            seg_end(s@, 6) == q,
            seg == s@.subrange(6, q as int),
            seg.len() > 0,
            forall|m: int| 6 <= m < j ==> is_digit(#[trigger] s@[m]),
            v == dec_value(s@.subrange(6, j as int)),
        decreases q - j,
    {
        let c = s.get_char(j);
        let u = c as u32;
        proof {
            assert(s@.subrange(6, j as int + 1).drop_last() =~= s@.subrange(6, j as int));
            assert(s@.subrange(6, j as int + 1).last() == s@[j as int]);
        }
        if !(48 <= u && u <= 57) {
            proof {
                assert(seg[j - 6] == s@[j as int]);
                assert(!all_digits(seg));
            }
            return None;
        }
        let d = (u - 48) as u64;
        if v > (u64::MAX - d) / 10 {
            proof {
                let pre = s@.subrange(6, j as int + 1);
                assert(dec_value(pre) == v * 10 + d);
                assert(v * 10 + d > u64::MAX) by (nonlinear_arith)
                    requires
                        v > (u64::MAX - d) / 10,
                        0 <= d <= 9,
                ;
                if all_digits(seg) {
                    assert forall|i: int| 0 <= i < pre.len() implies is_digit(
                        #[trigger] pre[i],
                    ) by {
                        assert(pre[i] == seg[i]);
                    }
                    lemma_dec_value_prefix_le(seg, j as int + 1 - 6);
                    assert(seg.take(j as int + 1 - 6) =~= pre);
                    assert(dec_value(seg) > u64::MAX);
                }
            }
            return None;
        }
        proof {
            assert(v * 10 + d <= u64::MAX) by (nonlinear_arith)
                requires
                    v <= (u64::MAX - d) / 10,
                    0 <= d <= 9,
            ;
        }
        v = v * 10 + d;
        j += 1;
    }
    proof {
        assert(seg =~= s@.subrange(6, j as int));
        assert forall|i: int| 0 <= i < seg.len() implies is_digit(#[trigger] seg[i]) by {
            assert(seg[i] == s@[6 + i]);
        }
        assert(cleanup_user_id(s@) == Some(v as int));
    }
    Some(v)
}

/// Whether the presser of a reply's retraction control may delete the
/// reply: the original issuer may, a holder of message-management
/// authority may, a process operator may; nobody else.
pub fn can_cleanup(presser: u64, issuer: u64, manages_messages: bool, owner: bool) -> (r: bool)
    ensures
        r == (presser == issuer || manages_messages || owner),
{
    presser == issuer || manages_messages || owner
}

} // verus!
