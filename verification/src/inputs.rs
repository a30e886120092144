//! The input packager: turns a comma-separated string of field-element
//! literals into an ordered input sequence for the target machine.
//! Empty tokens (from doubled, leading or trailing commas) are skipped;
//! a non-empty token that is not a decimal literal below the field order
//! is rejected with `InvalidInputLiteral`, naming the token and its
//! zero-based position among the comma-separated segments.

use vstd::prelude::*;

use crate::error::Error;

verus! {

/// The order of the prime field the target machine computes over.
pub const FIELD_ORDER: u64 = 18446744069414584321;

/// Is `b` the code of a decimal digit?
pub open spec fn is_digit(b: u8) -> bool {
    48 <= b && b <= 57
}

pub open spec fn all_digits(t: Seq<u8>) -> bool {
    forall|i: int| 0 <= i < t.len() ==> is_digit(t[i])
}

/// The numeric value of a string of decimal digits.
pub open spec fn token_val(t: Seq<u8>) -> nat
    decreases t.len(),
{
    if t.len() == 0 {
        0
    } else {
        token_val(t.drop_last()) * 10 + ((t.last() - 48) as nat)
    }
}

/// A valid field-element literal: non-empty, all digits, below the
/// field order.
pub open spec fn valid_token(t: Seq<u8>) -> bool {
    t.len() > 0 && all_digits(t) && token_val(t) < FIELD_ORDER
}

/// Splitting on commas, processed from the left: `cur` is the segment
/// being accumulated, `done` the segments already closed.
pub open spec fn split_acc(s: Seq<u8>, cur: Seq<u8>, done: Seq<Seq<u8>>) -> Seq<Seq<u8>>
    decreases s.len(),
{
    if s.len() == 0 {
        done.push(cur)
    } else if s[0] == 44 {
        split_acc(s.skip(1), Seq::empty(), done.push(cur))
    } else {
        split_acc(s.skip(1), cur.push(s[0]), done)
    }
}

/// The comma-separated segments of `s`, in order. An input of `n`
/// commas yields `n + 1` segments, some possibly empty.
pub open spec fn segments(s: Seq<u8>) -> Seq<Seq<u8>> {
    split_acc(s, Seq::empty(), Seq::empty())
}

/// The packaged values of the segments from position `k` on: empty
/// segments are skipped, and the first invalid non-empty segment is
/// reported with its position.
pub open spec fn pack_from(segs: Seq<Seq<u8>>, k: int) -> Result<Seq<u64>, (Seq<u8>, int)>
    decreases segs.len() - k,
{
    if k < 0 || k >= segs.len() {
        Ok(Seq::empty())
    } else if segs[k].len() == 0 {
        pack_from(segs, k + 1)
    } else if !valid_token(segs[k]) {
        Err((segs[k], k))
    } else {
        match pack_from(segs, k + 1) {
            Ok(rest) => Ok(seq![token_val(segs[k]) as u64] + rest),
            Err(e) => Err(e),
        }
    }
}

/// What packaging an input string yields: the ordered values of its
/// valid tokens, or the first invalid token and its position.
pub open spec fn pack_spec(s: Seq<u8>) -> Result<Seq<u64>, (Seq<u8>, int)> {
    pack_from(segments(s), 0)
}

/// A digit string's value only grows as more digits are appended.
proof fn lemma_token_val_prefix_le(s: Seq<u8>, i: int)
    requires
        0 <= i <= s.len(),
    ensures
        token_val(s.take(i)) <= token_val(s),
    decreases s.len() - i,
{
    if i == s.len() {
        assert(s.take(i) =~= s);
    } else {
        lemma_token_val_prefix_le(s, i + 1);
        assert(s.take(i + 1).drop_last() =~= s.take(i));
        assert(token_val(s.take(i + 1)) == token_val(s.take(i)) * 10 + ((s.take(i + 1).last()
            - 48) as nat));
    }
}

/// Copy a byte vector.
pub(crate) fn copy_bytes(v: &Vec<u8>) -> (r: Vec<u8>)
    ensures
        r@ == v@,
{
    let mut r: Vec<u8> = Vec::new();
    let mut i: usize = 0;
    while i < v.len()
        invariant
            0 <= i <= v@.len(),
            r@ == v@.take(i as int),
        decreases v@.len() - i,
    {
        r.push(v[i]);
        proof {
            assert(v@.take(i + 1) =~= v@.take(i as int).push(v@[i as int]));
        }
        i = i + 1;
    }
    proof {
        assert(v@.take(i as int) =~= v@);
    }
    r
}

/// Parse one non-empty token as a field-element literal.
pub(crate) fn parse_token(t: &Vec<u8>) -> (r: Option<u64>)
    requires
        t@.len() > 0,
    ensures
        match r {
            Some(v) => valid_token(t@) && v == token_val(t@) && v < FIELD_ORDER,
            None => !valid_token(t@),
        },
{
    let mut acc: u64 = 0;
    let mut i: usize = 0;
    while i < t.len()
        invariant
            0 <= i <= t@.len(),
            all_digits(t@.take(i as int)),
            acc == token_val(t@.take(i as int)),
            acc < FIELD_ORDER,
        decreases t@.len() - i,
    {
        let b = t[i];
        if b < 48 || b > 57 {
            assert(!is_digit(t@[i as int]));
            return None;
        }
        let d: u64 = (b - 48) as u64;
        let wide: u128 = acc as u128 * 10 + d as u128;
        proof {
            assert(t@.take(i + 1).drop_last() =~= t@.take(i as int));
            assert(t@.take(i + 1).last() == t@[i as int]);
        }
        if wide >= FIELD_ORDER as u128 {
            proof {
                assert(token_val(t@.take(i + 1)) >= FIELD_ORDER);
                lemma_token_val_prefix_le(t@, i + 1);
            }
            return None;
        }
        acc = wide as u64;
        i = i + 1;
    }
    proof {
        assert(t@.take(i as int) =~= t@);
    }
    Some(acc)
}

/// Split an input string into its comma-separated segments.
fn split_commas(s: &Vec<u8>) -> (r: Vec<Vec<u8>>)
    ensures
        r.deep_view() == segments(s@),
{
    let mut done: Vec<Vec<u8>> = Vec::new();
    let mut cur: Vec<u8> = Vec::new();
    let mut i: usize = 0;
    proof {
        assert(s@.skip(0) =~= s@);
        assert(done.deep_view() =~= Seq::<Seq<u8>>::empty());
        assert(cur@ =~= Seq::<u8>::empty());
    }
    while i < s.len()
        invariant
            0 <= i <= s@.len(),
            segments(s@) == split_acc(s@.skip(i as int), cur@, done.deep_view()),
        decreases s@.len() - i,
    {
        let ghost prev = s@.skip(i as int);
        let ghost prev_cur = cur@;
        let ghost prev_done = done.deep_view();
        let b = s[i];
        assert(prev[0] == s@[i as int]);
        if b == 44 {
            done.push(cur);
            cur = Vec::new();
            proof {
                assert(done.deep_view() =~~= prev_done.push(prev_cur));
            }
        } else {
            cur.push(b);
            proof {
                assert(done.deep_view() =~~= prev_done);
            }
        }
        i = i + 1;
        proof {
            assert(prev.skip(1) =~= s@.skip(i as int));
        }
    }
    proof {
        assert(s@.skip(i as int).len() == 0);
    }
    let ghost prev_done = done.deep_view();
    let ghost prev_cur = cur@;
    done.push(cur);
    proof {
        assert(done.deep_view() =~~= prev_done.push(prev_cur));
    }
    done
}

/// Package an optional comma-separated input string into an ordered
/// sequence of field elements. An absent input is an empty sequence;
/// empty tokens are skipped; the first invalid token is reported with
/// its position.
pub fn pack(raw: &Option<Vec<u8>>) -> (r: Result<Vec<u64>, Error>)
    ensures
        match raw {
            None => r matches Ok(v) && v@ == Seq::<u64>::empty(),
            Some(s) => match pack_spec(s@) {
                Ok(vals) => r matches Ok(v) && v@ == vals,
                Err(bad) => r matches Err(e) && e matches Error::InvalidInputLiteral {
                    token,
                    position,
                } && token@ == bad.0 && position == bad.1,
            },
        },
        r matches Ok(v) ==> forall|i: int| 0 <= i < v@.len() ==> v@[i] < FIELD_ORDER,
{
    if raw.is_none() {
        Ok(Vec::new())
    } else {
        let s: &Vec<u8> = raw.as_ref().unwrap();
            let segs = split_commas(s);
            let ghost gsegs = segs.deep_view();
            let mut out: Vec<u64> = Vec::new();
            let mut k: usize = 0;
            proof {
                let rest = pack_from(gsegs, 0)->Ok_0;
                assert(out@ + rest =~= rest);
            }
            while k < segs.len()
                invariant
                    raw matches Some(x) ==> x@ == s@,
                    raw is Some,
                    0 <= k <= segs@.len(),
                    gsegs == segs.deep_view(),
                    gsegs == segments(s@),
                    pack_from(gsegs, 0) == match pack_from(gsegs, k as int) {
                        Ok(rest) => Ok::<Seq<u64>, (Seq<u8>, int)>(out@ + rest),
                        Err(e) => Err::<Seq<u64>, (Seq<u8>, int)>(e),
                    },
                    forall|i: int| 0 <= i < out@.len() ==> out@[i] < FIELD_ORDER,
                decreases segs@.len() - k,
            {
                let seg = &segs[k];
                assert(seg@ == gsegs[k as int]);
                if seg.len() == 0 {
                    k = k + 1;
                } else {
                    match parse_token(seg) {
                        Some(v) => {
                            let ghost prev_out = out@;
                            out.push(v);
                            proof {
                                let rest = pack_from(gsegs, k + 1)->Ok_0;
                                assert(prev_out + (seq![v] + rest) =~= out@ + rest);
                            }
                            k = k + 1;
                        },
                        None => {
                            proof {
                                assert(pack_from(gsegs, k as int) == Err::<Seq<u64>, (Seq<u8>, int)>(
                                    (gsegs[k as int], k as int),
                                ));
                                assert(pack_spec(s@) == Err::<Seq<u64>, (Seq<u8>, int)>(
                                    (gsegs[k as int], k as int),
                                ));
                            }
                            let tok = copy_bytes(seg);
                            let e = Error::InvalidInputLiteral { token: tok, position: k };
                            proof {
                                assert(e matches Error::InvalidInputLiteral { token, position }
                                    && token@ == gsegs[k as int] && position == k as int);
                            }
                            return Err(e);
                        },
                    }
                }
            }
            proof {
                assert(pack_from(gsegs, k as int) == Ok::<Seq<u64>, (Seq<u8>, int)>(
                    Seq::<u64>::empty(),
                ));
                assert(out@ + Seq::<u64>::empty() =~= out@);
            }
            Ok(out)
    }
}

} // verus!
