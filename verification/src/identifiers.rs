//! Renaming helpers for carrying graph value names across formats.

use vstd::prelude::*;
use vstd::string::StrSliceExecFns;
use vstd::string::StringExecFns;

use crate::text::decimal_digits;

verus! {

/// The sanitised form of a name: each `::` becomes `__`, and each
/// remaining `:`, `.` or `/` becomes `_`.
pub open spec fn sanitize_chars(s: Seq<char>) -> Seq<char>
    decreases s.len(),
{
    if s.len() == 0 {
        Seq::empty()
    } else if s.len() >= 2 && s[0] == ':' && s[1] == ':' {
        seq!['_', '_'] + sanitize_chars(s.skip(2))
    } else if s[0] == ':' || s[0] == '.' || s[0] == '/' {
        seq!['_'] + sanitize_chars(s.skip(1))
    } else {
        seq![s[0]] + sanitize_chars(s.skip(1))
    }
}

/// Rewrites a name so that `::` becomes `__` and each remaining `:`,
/// `.` or `/` becomes `_`.
#[verifier::loop_isolation(false)]
pub fn sanitize_for_webnn(onnx_name: &str) -> (r: String)
    ensures
        r@ == sanitize_chars(onnx_name@),
{
    proof {
        reveal_strlit("_");
        reveal_strlit("__");
    }
    let n = onnx_name.unicode_len();
    let mut out = String::new();
    proof {
        assert(onnx_name@.skip(0) =~= onnx_name@);
        assert(out@ + sanitize_chars(onnx_name@) =~= sanitize_chars(onnx_name@));
    }
    let mut i: usize = 0;
    while i < n
        invariant
            i <= n,
            n == onnx_name@.len(),
            sanitize_chars(onnx_name@) == out@ + sanitize_chars(onnx_name@.skip(i as int)),
        decreases n - i,
    {
        let ghost rest = onnx_name@.skip(i as int);
        let c = onnx_name.get_char(i);
        proof {
            assert(rest[0] == onnx_name@[i as int]);
        }
        if c == ':' && i + 1 < n && onnx_name.get_char(i + 1) == ':' {
            proof {
                assert(rest[1] == onnx_name@[i + 1]);
                assert(rest.skip(2) =~= onnx_name@.skip(i + 2));
                assert("__"@ =~= seq!['_', '_']);
            }
            out.append("__");
            i = i + 2;
        } else if c == ':' || c == '.' || c == '/' {
            proof {
                assert(rest.skip(1) =~= onnx_name@.skip(i + 1));
                assert("_"@ =~= seq!['_']);
            }
            out.append("_");
            i = i + 1;
        } else {
            proof {
                assert(rest.skip(1) =~= onnx_name@.skip(i + 1));
            }
            let piece = onnx_name.substring_char(i, i + 1);
            proof {
                assert(piece@ =~= seq![onnx_name@[i as int]]);
            }
            out.append(piece);
            i = i + 1;
        }
    }
    proof {
        assert(onnx_name@.skip(n as int) =~= Seq::<char>::empty());
        assert(sanitize_chars(onnx_name@.skip(n as int)) =~= Seq::<char>::empty());
        assert(out@ =~= out@ + Seq::<char>::empty());
    }
    out
}

/// Whether a character may begin an identifier: an ASCII letter or
/// underscore.
pub open spec fn is_ident_start(c: char) -> bool {
    (97 <= c as int <= 122) || (65 <= c as int <= 90) || c == '_'
}

/// Whether a character may continue an identifier: an ASCII letter,
/// digit or underscore.
pub open spec fn is_ident_cont(c: char) -> bool {
    is_ident_start(c) || (48 <= c as int <= 57)
}

/// Whether a name is a valid identifier: non-empty, starting with an
/// ASCII letter or underscore, continuing with ASCII letters, digits
/// or underscores.
pub open spec fn valid_ident(s: Seq<char>) -> bool {
    &&& s.len() > 0
    &&& is_ident_start(s[0])
    &&& forall|i: int| 1 <= i < s.len() ==> is_ident_cont(#[trigger] s[i])
}

fn char_is_ident_start(c: char) -> (r: bool)
    ensures
        r == is_ident_start(c),
{
    let u = c as u32;
    (97 <= u && u <= 122) || (65 <= u && u <= 90) || c == '_'
}

fn char_is_ident_cont(c: char) -> (r: bool)
    ensures
        r == is_ident_cont(c),
{
    let u = c as u32;
    char_is_ident_start(c) || (48 <= u && u <= 57)
}

/// Tests whether a name is a valid identifier: non-empty, starting
/// with an ASCII letter or underscore, continuing with ASCII letters,
/// digits or underscores.
pub fn is_valid_webnn_identifier(name: &str) -> (r: bool)
    ensures
        r == valid_ident(name@),
{
    let n = name.unicode_len();
    if n == 0 {
        return false;
    }
    if !char_is_ident_start(name.get_char(0)) {
        return false;
    }
    let mut i: usize = 1;
    while i < n
        invariant
            1 <= i <= n,
            n == name@.len(),
            forall|j: int| 1 <= j < i ==> is_ident_cont(#[trigger] name@[j]),
        decreases n - i,
    {
        if !char_is_ident_cont(name.get_char(i)) {
            return false;
        }
        i = i + 1;
    }
    true
}

/// Appends a fresh decimal suffix to a base name and advances the
/// counter: the result is `base`, an underscore, then the counter's
/// decimal digits.
pub fn make_unique(base: &str, counter: &mut usize) -> (r: String)
    requires
        *old(counter) < usize::MAX,
    ensures
        r@ == base@ + seq!['_'] + decimal_digits(*old(counter) as nat),
        *final(counter) == *old(counter) + 1,
{
    proof {
        reveal_strlit("_");
        assert("_"@ =~= seq!['_']);
    }
    let mut name: String = base.to_owned();
    name.append("_");
    crate::text::push_decimal(*counter as u64, &mut name);
    *counter = *counter + 1;
    name
}

} // verus!
