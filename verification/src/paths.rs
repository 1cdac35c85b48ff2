//! File-system paths, held as text.
use vstd::prelude::*;

verus! {

/// Joining `p` onto `base` as `PathBuf::join` does on Unix: an absolute `p` replaces
/// `base`; otherwise `p` is appended, with a `/` between them unless `base` is empty or
/// already ends with one.
pub open spec fn spec_join(base: Seq<char>, p: Seq<char>) -> Seq<char> {
    if p.len() > 0 && p[0] == '/' {
        p
    } else if base.len() == 0 {
        p
    } else if base.last() == '/' {
        base + p
    } else {
        base + seq!['/'] + p
    }
}

/// `base` joined with `p` (see [`spec_join`]).
pub fn join(base: &str, p: &str) -> (res: String)
    ensures
        res@ == spec_join(base@, p@),
{
    let cp = crate::text::chars_of(p);
    if cp.len() > 0 && cp[0] == '/' {
        return p.to_string();
    }
    let cb = crate::text::chars_of(base);
    if cb.len() == 0 {
        return p.to_string();
    }
    if cb[cb.len() - 1] == '/' {
        return base.to_string().concat(p);
    }
    proof {
        reveal_strlit("/");
    }
    let r = base.to_string().concat("/").concat(p);
    assert(r@ =~= base@ + seq!['/'] + p@);
    r
}

/// A path that is not absolute and holds no `/` names one entry inside the directory it
/// is joined onto.
pub open spec fn is_plain_name(p: Seq<char>) -> bool {
    p.len() > 0 && !p.contains('/')
}

/// Joining a relative path onto a non-empty directory keeps the directory as a prefix.
pub proof fn lemma_join_extends(base: Seq<char>, p: Seq<char>)
    requires
        base.len() > 0,
        !(p.len() > 0 && p[0] == '/'),
    ensures
        spec_join(base, p).len() >= base.len(),
        spec_join(base, p).take(base.len() as int) == base,
{
    if base.last() == '/' {
        assert((base + p).take(base.len() as int) =~= base);
    } else {
        assert((base + seq!['/'] + p).take(base.len() as int) =~= base);
    }
}

} // verus!
