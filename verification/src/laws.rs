//! The general properties of the bridge, stated and proved once over the
//! spec-level model that the executable functions' contracts use.

use vstd::prelude::*;

use crate::cue::{parse_cue_info_spec, CueInfoV};
use crate::dispatch::registration_action_views;
use crate::error::BridgeError;
use crate::sequence::fader_key;
use crate::text::{
    dec_digit, dec_str, dec_str_nat, digit_val, digits_val, is_dec_digit, joined, tokens_of,
};

verus! {

/// Slug parsing law: on a slug with at least two space-separated tokens,
/// parsing succeeds, the first token is the sequence name, the second the
/// cue number, and the remaining tokens joined with single spaces form the
/// cue name; on fewer tokens it fails with a parse error.
pub proof fn lemma_parse_cue_info_tokens(slug: Seq<char>)
    ensures
        tokens_of(slug).len() >= 2 ==> parse_cue_info_spec(slug) == Ok::<CueInfoV, BridgeError>(
            CueInfoV {
                number: tokens_of(slug)[1],
                name: joined(tokens_of(slug).skip(2)),
                sequence_name: tokens_of(slug)[0],
            },
        ),
        tokens_of(slug).len() < 2 ==> parse_cue_info_spec(slug) == Err::<CueInfoV, BridgeError>(
            BridgeError::ParseError,
        ),
{
}

/// Registration idempotence law: after a cue number has been registered once
/// it is known, and registering the same number again changes the known cue
/// numbers not at all and provisions no remote target.
pub proof fn lemma_register_cue_idempotent(pre: Seq<Seq<char>>, id: i32, info: CueInfoV)
    ensures
        ({
            let once = if pre.contains(info.number) {
                pre
            } else {
                pre.push(info.number)
            };
            &&& once.contains(info.number)
            &&& registration_action_views(id, once, info).len() == 0
        }),
{
    let once = if pre.contains(info.number) {
        pre
    } else {
        pre.push(info.number)
    };
    if !pre.contains(info.number) {
        assert(once.last() == info.number);
        assert(once.contains(info.number));
    }
}

proof fn lemma_dec_str_nat_value(n: int)
    requires
        n >= 0,
    ensures
        dec_str_nat(n).len() >= 1,
        forall|k: int| 0 <= k < dec_str_nat(n).len() ==> is_dec_digit(#[trigger] dec_str_nat(n)[k]),
        digits_val(dec_str_nat(n)) == n,
    decreases n,
{
    if n < 10 {
        assert(digit_val(dec_digit(n)) == n);
        assert(is_dec_digit(dec_digit(n)));
        assert(dec_str_nat(n) =~= seq![dec_digit(n)]);
        assert(dec_str_nat(n).drop_last() =~= Seq::<char>::empty());
        assert(dec_str_nat(n).last() == dec_digit(n));
        assert(digits_val(Seq::<char>::empty()) == 0);
        assert(digits_val(dec_str_nat(n)) == digits_val(Seq::<char>::empty()) * 10 + digit_val(
            dec_digit(n),
        ));
        assert(digits_val(dec_str_nat(n)) == n);
    } else {
        lemma_dec_str_nat_value(n / 10);
        let s = dec_str_nat(n);
        assert(s == dec_str_nat(n / 10).push(dec_digit(n % 10)));
        assert(s.drop_last() =~= dec_str_nat(n / 10));
        assert(s.last() == dec_digit(n % 10));
        assert(digit_val(dec_digit(n % 10)) == n % 10);
        assert(digits_val(s) == (n / 10) * 10 + n % 10);
        assert((n / 10) * 10 + n % 10 == n) by (nonlinear_arith)
            requires n >= 0;
        assert forall|k: int| 0 <= k < s.len() implies is_dec_digit(#[trigger] s[k]) by {
            if k < s.len() - 1 {
                assert(s[k] == dec_str_nat(n / 10)[k]);
            }
        }
    }
}

/// Decimal rendering is injective.
proof fn lemma_dec_str_injective(a: int, b: int)
    requires
        a != b,
    ensures
        dec_str(a) != dec_str(b),
{
    if a >= 0 {
        lemma_dec_str_nat_value(a);
    } else {
        lemma_dec_str_nat_value(-a);
    }
    if b >= 0 {
        lemma_dec_str_nat_value(b);
    } else {
        lemma_dec_str_nat_value(-b);
    }
    if dec_str(a) == dec_str(b) {
        if a >= 0 && b >= 0 {
            assert(digits_val(dec_str_nat(a)) == digits_val(dec_str_nat(b)));
            assert(false);
        } else if a < 0 && b < 0 {
            assert(dec_str(a).drop_first() =~= dec_str_nat(-a));
            assert(dec_str(b).drop_first() =~= dec_str_nat(-b));
            assert(dec_str_nat(-a) == dec_str_nat(-b));
            assert(false);
        } else if a < 0 && b >= 0 {
            assert(dec_str(a)[0] == '-');
            assert(dec_str(b)[0] == dec_str_nat(b)[0]);
            assert(is_dec_digit(dec_str_nat(b)[0]));
            assert(false);
        } else {
            assert(dec_str(b)[0] == '-');
            assert(dec_str(a)[0] == dec_str_nat(a)[0]);
            assert(is_dec_digit(dec_str_nat(a)[0]));
            assert(false);
        }
    }
}

/// Fader key uniqueness law: two distinct sequence ids give distinct fader
/// keys for the same function name, so each sequence owns its own emitter.
pub proof fn lemma_fader_key_unique(id1: i32, id2: i32, function: Seq<char>)
    requires
        id1 != id2,
    ensures
        fader_key(id1, function) != fader_key(id2, function),
{
    lemma_dec_str_injective(id1 as int, id2 as int);
    let d1 = dec_str(id1 as int);
    let d2 = dec_str(id2 as int);
    if fader_key(id1, function) == fader_key(id2, function) {
        assert(fader_key(id1, function).len() == d1.len() + function.len());
        assert(fader_key(id2, function).len() == d2.len() + function.len());
        assert(d1.len() == d2.len());
        assert forall|k: int| 0 <= k < d1.len() implies d1[k] == d2[k] by {
            assert((d1 + function)[k] == d1[k]);
            assert((d2 + function)[k] == d2[k]);
        }
        assert(d1 =~= d2);
        assert(false);
    }
}

} // verus!
