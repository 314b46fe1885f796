//! Decoding of cluster CLI output that arrives as plain text, and the
//! exact argument and message strings the client hands to it.

use crate::strutil::{split_char, split_on_char, trim_spec, trim_str};
use vstd::prelude::*;

verus! {

/// Trim each piece and drop the empty ones, keeping order.
pub open spec fn spec_clean_lines(parts: Seq<Seq<char>>) -> Seq<Seq<char>>
    decreases parts.len(),
{
    if parts.len() == 0 {
        Seq::empty()
    } else {
        spec_clean_lines(parts.drop_last()) + if trim_spec(parts.last()).len() > 0 {
            seq![trim_spec(parts.last())]
        } else {
            Seq::empty()
        }
    }
}

/// The context names in `config get-contexts -o name` output: one per
/// line, trimmed, empty lines dropped.
pub open spec fn spec_context_lines(s: Seq<char>) -> Seq<Seq<char>> {
    spec_clean_lines(split_char(s, '\n'))
}

/// Decode the context list output.
pub fn parse_context_lines(out: &str) -> (r: Vec<String>)
    ensures
        r.deep_view() == spec_context_lines(out@),
{
    let parts = split_on_char(out, '\n');
    let ghost pv = parts.deep_view();
    let mut r: Vec<String> = Vec::new();
    let mut i: usize = 0;
    proof {
        assert(pv.take(0) =~= Seq::<Seq<char>>::empty());
        assert(r.deep_view() =~= spec_clean_lines(pv.take(0)));
    }
    while i < parts.len()
        invariant
            i <= parts.len(),
            pv == parts.deep_view(),
            pv.len() == parts.len(),
            r.deep_view() == spec_clean_lines(pv.take(i as int)),
        decreases parts.len() - i,
    {
        let ghost old_r = r.deep_view();
        let ghost pre1 = pv.take(i as int + 1);
        proof {
            assert(pre1.drop_last() =~= pv.take(i as int));
            assert(pre1.last() == pv[i as int]);
        }
        let t = trim_str(parts[i].as_str());
        if t.unicode_len() > 0 {
            r.push(t);
            proof {
                assert(r.deep_view() =~= old_r.push(trim_spec(pv[i as int])));
                assert(old_r + seq![trim_spec(pv[i as int])] =~= r.deep_view());
            }
        } else {
            proof {
                assert(old_r + Seq::<Seq<char>>::empty() =~= old_r);
            }
        }
        i += 1;
    }
    proof {
        assert(pv.take(pv.len() as int) =~= pv);
    }
    r
}

/// A context's configured default namespace: the trimmed query output, or
/// nothing when it is empty.
pub fn nonempty_trimmed(out: &str) -> (r: Option<String>)
    ensures
        trim_spec(out@).len() == 0 ==> r is None,
        trim_spec(out@).len() > 0 ==> (r matches Some(v) && v@ == trim_spec(out@)),
{
    let t = trim_str(out);
    if t.as_str().unicode_len() == 0 {
        Option::None
    } else {
        Option::Some(t)
    }
}

/// The jsonpath query that looks up a context's default namespace.
pub fn context_namespace_jsonpath(ctx: &str) -> (r: String)
    ensures
        r@ == ("jsonpath={.contexts[?(@.name==\"")@ + ctx@ + ("\")].context.namespace}")@,
{
    let mut r = String::from_str("jsonpath={.contexts[?(@.name==\"");
    r.append(ctx);
    r.append("\")].context.namespace}");
    r
}

/// The message for a failed `exec` with piped stdin: any stdin write error
/// is reported alongside the child's stderr.
pub fn exec_failure_message(stdin_error: &Option<String>, stderr: &str) -> (r: String)
    ensures
        match stdin_error {
            Option::Some(e) => r@ == ("kubectl exec failed (stdin error: ")@ + e@ + ("): ")@
                + stderr@,
            Option::None => r@ == ("kubectl exec failed: ")@ + stderr@,
        },
{
    match stdin_error {
        Option::Some(e) => {
            let mut r = String::from_str("kubectl exec failed (stdin error: ");
            r.append(e.as_str());
            r.append("): ");
            r.append(stderr);
            r
        },
        Option::None => {
            let mut r = String::from_str("kubectl exec failed: ");
            r.append(stderr);
            r
        },
    }
}

} // verus!
