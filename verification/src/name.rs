//! The naming resolver: the pure function from (method, path, namespace tag)
//! to the canonical camel-case identifier of a route, and its type-name
//! derivative.
//!
//! The path is taken relative to the service root: one leading `/`, a
//! literal `api/` prefix, and a literal `{tag}/` prefix are stripped, the
//! rest is split on `-`, `/` and `_`, each segment is lower-cased and given
//! an upper-case initial, and the segments are joined behind the
//! lower-cased method token.

use vstd::prelude::*;

use crate::strutil::chars_to_string;
use crate::strutil::lower;
use crate::strutil::lower_char;
use crate::strutil::push_chars;
use crate::strutil::str_to_chars;
use crate::strutil::to_lower_char;
use crate::strutil::to_upper_char;
use crate::strutil::upper_char;
use crate::types::RouteView;
use crate::method::method_str;

verus! {

/// The three characters that separate path segments.
pub open spec fn is_delim(c: char) -> bool {
    c == '-' || c == '/' || c == '_'
}

/// Camel-case assembly of the split path: delimiters start a new segment,
/// each segment's first character is upper-cased after lower-casing, every
/// other character is lower-cased. Empty segments contribute nothing.
pub open spec fn camel_from(s: Seq<char>, at_start: bool) -> Seq<char>
    decreases s.len(),
{
    if s.len() == 0 {
        Seq::empty()
    } else if is_delim(s[0]) {
        camel_from(s.drop_first(), true)
    } else if at_start {
        seq![to_upper_char(to_lower_char(s[0]))] + camel_from(s.drop_first(), false)
    } else {
        seq![to_lower_char(s[0])] + camel_from(s.drop_first(), false)
    }
}

/// Strip one leading path separator, if present.
pub open spec fn strip_leading_slash(p: Seq<char>) -> Seq<char> {
    if p.len() > 0 && p[0] == '/' {
        p.drop_first()
    } else {
        p
    }
}

/// Strip a literal `api/` prefix, if present.
pub open spec fn strip_api_prefix(p: Seq<char>) -> Seq<char> {
    if p.len() >= 4 && p[0] == 'a' && p[1] == 'p' && p[2] == 'i' && p[3] == '/' {
        p.skip(4)
    } else {
        p
    }
}

/// Strip a literal `{tag}/` prefix, if present: namespace-scoped paths do
/// not repeat the namespace in the generated name.
pub open spec fn strip_tag_prefix(p: Seq<char>, tag: Seq<char>) -> Seq<char> {
    if p.len() > tag.len() && p.take(tag.len() as int) == tag && p[tag.len() as int] == '/' {
        p.skip(tag.len() + 1 as int)
    } else {
        p
    }
}

/// The canonical identifier derived from a method token, a path and a
/// namespace tag.
pub open spec fn name_raw_of(method: Seq<char>, path: Seq<char>, tag: Seq<char>) -> Seq<char> {
    lower(method) + camel_from(
        strip_tag_prefix(strip_api_prefix(strip_leading_slash(path)), tag),
        true,
    )
}

/// The canonical identifier of a route.
pub open spec fn route_name(r: RouteView) -> Seq<char> {
    name_raw_of(method_str(r.method), r.path, r.tag)
}

/// A sequence with its first character upper-cased.
pub open spec fn upper_first(s: Seq<char>) -> Seq<char> {
    if s.len() == 0 {
        s
    } else {
        seq![to_upper_char(s[0])] + s.drop_first()
    }
}

/// The type-name prefix of a route: its identifier with an upper-case
/// initial.
pub open spec fn route_type_name(r: RouteView) -> Seq<char> {
    upper_first(route_name(r))
}

/// The given text with its first character upper-cased.
pub fn first_upper(s: &str) -> (r: String)
    requires
        s@.len() > 0,
    ensures
        r@ == upper_first(s@),
{
    let v = str_to_chars(s);
    first_upper_chars(&v)
}

/// The given characters with the first one upper-cased, as a string.
pub fn first_upper_chars(v: &Vec<char>) -> (r: String)
    requires
        v@.len() > 0,
    ensures
        r@ == upper_first(v@),
{
    let out = upper_first_vec(v);
    chars_to_string(&out)
}

/// The given characters with the first one upper-cased.
pub fn upper_first_vec(v: &Vec<char>) -> (r: Vec<char>)
    requires
        v@.len() > 0,
    ensures
        r@ == upper_first(v@),
{
    let mut out: Vec<char> = Vec::new();
    out.push(upper_char(v[0]));
    let n: usize = v.len();
    let mut i: usize = 1;
    while i < n
        invariant
            1 <= i <= n,
            n == v@.len(),
            out@ == seq![to_upper_char(v@[0])] + v@.subrange(1, i as int),
        decreases n - i,
    {
        out.push(v[i]);
        proof {
            assert(seq![to_upper_char(v@[0])] + v@.subrange(1, i + 1 as int) =~= (seq![
                to_upper_char(v@[0]),
            ] + v@.subrange(1, i as int)).push(v@[i as int]));
        }
        i += 1;
    }
    proof {
        assert(v@.subrange(1, n as int) =~= v@.drop_first());
    }
    out
}

/// Append the camel-case assembly of `p` from index `start` onward to `out`.
fn push_camel(out: &mut Vec<char>, p: &Vec<char>, start: usize)
    requires
        start <= p@.len(),
    ensures
        final(out)@ == old(out)@ + camel_from(p@.skip(start as int), true),
{
    let ghost target: Seq<char> = old(out)@ + camel_from(p@.skip(start as int), true);
    let n: usize = p.len();
    let mut i: usize = start;
    let mut at_start: bool = true;
    while i < n
        invariant
            start <= i <= n,
            n == p@.len(),
            target == out@ + camel_from(p@.skip(i as int), at_start),
        decreases n - i,
    {
        let c = p[i];
        proof {
            assert(p@.skip(i as int)[0] == p@[i as int]);
            assert(p@.skip(i as int).drop_first() =~= p@.skip(i + 1 as int));
        }
        if c == '-' || c == '/' || c == '_' {
            at_start = true;
        } else {
            let lc = lower_char(c);
            if at_start {
                out.push(upper_char(lc));
            } else {
                out.push(lc);
            }
            proof {
                assert(out@ + camel_from(p@.skip(i + 1 as int), false) =~= target);
            }
            at_start = false;
        }
        i += 1;
    }
    proof {
        assert(p@.skip(n as int) =~= Seq::<char>::empty());
        assert(out@ =~= target);
    }
}

/// The canonical identifier from a raw method token, path and namespace
/// tag, each given as text.
pub fn make_name_raw(method: String, path: String, tag: String) -> (r: String)
    ensures
        r@ == name_raw_of(method@, path@, tag@),
{
    let mchars = str_to_chars(method.as_str());
    let mut out: Vec<char> = Vec::new();
    let mn: usize = mchars.len();
    let mut i: usize = 0;
    while i < mn
        invariant
            i <= mn,
            mn == mchars@.len(),
            out@.len() == i,
            forall|j: int| 0 <= j < i ==> out@[j] == to_lower_char(mchars@[j]),
        decreases mn - i,
    {
        out.push(lower_char(mchars[i]));
        i += 1;
    }
    proof {
        assert(out@ =~= lower(method@));
    }

    let pchars = str_to_chars(path.as_str());
    let tchars = str_to_chars(tag.as_str());
    let mut start: usize = 0;
    if pchars.len() > 0 && pchars[0] == '/' {
        start = 1;
    }
    proof {
        assert(pchars@.skip(start as int) =~= strip_leading_slash(path@));
    }
    let ghost after_slash = strip_leading_slash(path@);
    if pchars.len() - start >= 4 && pchars[start] == 'a' && pchars[start + 1] == 'p' && pchars[start
        + 2] == 'i' && pchars[start + 3] == '/' {
        proof {
            assert(after_slash[0] == pchars@[start as int]);
            assert(after_slash[1] == pchars@[start + 1 as int]);
            assert(after_slash[2] == pchars@[start + 2 as int]);
            assert(after_slash[3] == pchars@[start + 3 as int]);
            assert(after_slash.skip(4) =~= pchars@.skip(start + 4 as int));
        }
        start = start + 4;
    } else {
        proof {
            if after_slash.len() >= 4 {
                assert(after_slash[0] == pchars@[start as int]);
                assert(after_slash[1] == pchars@[start + 1 as int]);
                assert(after_slash[2] == pchars@[start + 2 as int]);
                assert(after_slash[3] == pchars@[start + 3 as int]);
            }
        }
    }
    let ghost after_api = strip_api_prefix(after_slash);
    proof {
        assert(start <= pchars@.len());
        assert(pchars@.skip(start as int) =~= after_api);
    }

    let tn: usize = tchars.len();
    let pn: usize = pchars.len();
    let mut tag_matches: bool = pn - start > tn;
    let mut k: usize = 0;
    while k < tn && tag_matches
        invariant
            k <= tn,
            tn == tchars@.len(),
            pn == pchars@.len(),
            start <= pchars@.len(),
            after_api == pchars@.skip(start as int),
            tag_matches ==> start + tn < pchars@.len(),
            tag_matches ==> forall|j: int| 0 <= j < k ==> pchars@[start + j] == tchars@[j],
            !tag_matches ==> !(after_api.len() > tn && after_api.take(tn as int) == tchars@ && after_api[tn as int]
                == '/'),
        decreases tn - k,
    {
        proof {
            assert(after_api[k as int] == pchars@[start + k]);
        }
        if pchars[start + k] != tchars[k] {
            proof {
                if after_api.len() > tn && after_api.take(tn as int) == tchars@ {
                    assert(after_api.take(tn as int)[k as int] == tchars@[k as int]);
                }
            }
            tag_matches = false;
        }
        k += 1;
    }
    if tag_matches {
        proof {
            assert(after_api[tn as int] == pchars@[start + tn]);
        }
        if pchars[start + tn] == '/' {
            proof {
                assert(after_api.take(tn as int) =~= tchars@);
                assert(after_api.skip(tn + 1) =~= pchars@.skip(start + tn + 1));
            }
            start = start + tn + 1;
        } else {
            proof {
                if after_api.len() > tn && after_api.take(tn as int) == tchars@ {
                }
            }
        }
    }
    let ghost after_tag = strip_tag_prefix(after_api, tag@);
    proof {
        assert(pchars@.skip(start as int) =~= after_tag);
    }

    push_camel(&mut out, &pchars, start);
    chars_to_string(&out)
}

/// The canonical identifier of a route descriptor.
pub fn make_name(info: &crate::types::RequestInfo) -> (r: String)
    ensures
        r@ == route_name(info@),
{
    make_name_raw(
        info.method.as_str().to_owned(),
        info.path.clone(),
        info.tag.clone(),
    )
}

} // verus!
