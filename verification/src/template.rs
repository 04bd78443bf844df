//! Rendering of tag names, commit messages and substitution texts against
//! named placeholders.  A placeholder whose value is absent, or any unknown
//! placeholder, passes through literally.

use vstd::prelude::*;

verus! {

/// The values available to one rendering.
#[derive(Debug)]
pub struct Template {
    pub prev_version: Option<String>,
    pub version: Option<String>,
    pub next_version: Option<String>,
    pub crate_name: Option<String>,
    pub tag_name: Option<String>,
    pub prefix: Option<String>,
    pub date: Option<String>,
}

/// The mathematical value of a [`Template`].
#[verifier::ext_equal]
pub ghost struct TemplateV {
    pub prev_version: Option<Seq<char>>,
    pub version: Option<Seq<char>>,
    pub next_version: Option<Seq<char>>,
    pub crate_name: Option<Seq<char>>,
    pub tag_name: Option<Seq<char>>,
    pub prefix: Option<Seq<char>>,
    pub date: Option<Seq<char>>,
}

/// The value of an optional string.
pub open spec fn opt_str_view(o: Option<String>) -> Option<Seq<char>> {
    match o {
        Option::Some(s) => Option::Some(s@),
        Option::None => Option::None,
    }
}

impl View for Template {
    type V = TemplateV;

    open spec fn view(&self) -> TemplateV {
        TemplateV {
            prev_version: opt_str_view(self.prev_version),
            version: opt_str_view(self.version),
            next_version: opt_str_view(self.next_version),
            crate_name: opt_str_view(self.crate_name),
            tag_name: opt_str_view(self.tag_name),
            prefix: opt_str_view(self.prefix),
            date: opt_str_view(self.date),
        }
    }
}

impl Template {
    /// A rendering context with no values set.
    pub fn new() -> (r: Template)
        ensures
            r@.prev_version is None,
            r@.version is None,
            r@.next_version is None,
            r@.crate_name is None,
            r@.tag_name is None,
            r@.prefix is None,
            r@.date is None,
    {
        Template {
            prev_version: Option::None,
            version: Option::None,
            next_version: Option::None,
            crate_name: Option::None,
            tag_name: Option::None,
            prefix: Option::None,
            date: Option::None,
        }
    }
}

/// Whether `pat` occurs in `t` starting at position `i`.
pub open spec fn pat_at(t: Seq<char>, i: int, pat: Seq<char>) -> bool {
    0 <= i && i + pat.len() <= t.len() && t.subrange(i, i + pat.len()) == pat
}

/// The text of the previous-version placeholder.
pub open spec fn ph_prev_version() -> Seq<char> {
    seq!['{', '{', 'p', 'r', 'e', 'v', '_', 'v', 'e', 'r', 's', 'i', 'o', 'n', '}', '}']
}

/// The text of the version placeholder.
pub open spec fn ph_version() -> Seq<char> {
    seq!['{', '{', 'v', 'e', 'r', 's', 'i', 'o', 'n', '}', '}']
}

/// The text of the next-version placeholder.
pub open spec fn ph_next_version() -> Seq<char> {
    seq!['{', '{', 'n', 'e', 'x', 't', '_', 'v', 'e', 'r', 's', 'i', 'o', 'n', '}', '}']
}

/// The text of the crate-name placeholder.
pub open spec fn ph_crate_name() -> Seq<char> {
    seq!['{', '{', 'c', 'r', 'a', 't', 'e', '_', 'n', 'a', 'm', 'e', '}', '}']
}

/// The text of the tag-name placeholder.
pub open spec fn ph_tag_name() -> Seq<char> {
    seq!['{', '{', 't', 'a', 'g', '_', 'n', 'a', 'm', 'e', '}', '}']
}

/// The text of the prefix placeholder.
pub open spec fn ph_prefix() -> Seq<char> {
    seq!['{', '{', 'p', 'r', 'e', 'f', 'i', 'x', '}', '}']
}

/// The text of the date placeholder.
pub open spec fn ph_date() -> Seq<char> {
    seq!['{', '{', 'd', 'a', 't', 'e', '}', '}']
}

/// The rendering of `t` from position `i` on: each known placeholder whose
/// value is present becomes that value; every other character is copied.
pub open spec fn spec_render_from(t: Seq<char>, ctx: TemplateV, i: int) -> Seq<char>
    decreases t.len() - i,
{
    if i < 0 || i >= t.len() {
        Seq::empty()
    } else if pat_at(t, i, ph_prev_version()) && ctx.prev_version is Some {
        ctx.prev_version->0 + spec_render_from(t, ctx, i + ph_prev_version().len())
    } else if pat_at(t, i, ph_version()) && ctx.version is Some {
        ctx.version->0 + spec_render_from(t, ctx, i + ph_version().len())
    } else if pat_at(t, i, ph_next_version()) && ctx.next_version is Some {
        ctx.next_version->0 + spec_render_from(t, ctx, i + ph_next_version().len())
    } else if pat_at(t, i, ph_crate_name()) && ctx.crate_name is Some {
        ctx.crate_name->0 + spec_render_from(t, ctx, i + ph_crate_name().len())
    } else if pat_at(t, i, ph_tag_name()) && ctx.tag_name is Some {
        ctx.tag_name->0 + spec_render_from(t, ctx, i + ph_tag_name().len())
    } else if pat_at(t, i, ph_prefix()) && ctx.prefix is Some {
        ctx.prefix->0 + spec_render_from(t, ctx, i + ph_prefix().len())
    } else if pat_at(t, i, ph_date()) && ctx.date is Some {
        ctx.date->0 + spec_render_from(t, ctx, i + ph_date().len())
    } else {
        seq![t[i]] + spec_render_from(t, ctx, i + 1)
    }
}

/// The rendering of a whole template text.
pub open spec fn spec_render(t: Seq<char>, ctx: TemplateV) -> Seq<char> {
    spec_render_from(t, ctx, 0)
}

/// Tests whether `pat` occurs in `t` at position `i`.
pub fn pat_at_exec(t: &str, i: usize, pat: &str) -> (r: bool)
    requires
        i <= t@.len(),
    ensures
        r == pat_at(t@, i as int, pat@),
{
    let tlen = t.unicode_len();
    let plen = pat.unicode_len();
    if plen > tlen - i {
        return false;
    }
    let mut k: usize = 0;
    while k < plen
        invariant
            k <= plen,
            i + plen <= tlen,
            tlen == t@.len(),
            plen == pat@.len(),
            forall|j: int| 0 <= j < k ==> t@[i + j] == pat@[j],
        decreases plen - k,
    {
        if t.get_char(i + k) != pat.get_char(k) {
            proof {
                assert(t@.subrange(i as int, i + pat@.len())[k as int] != pat@[k as int]);
            }
            return false;
        }
        k += 1;
    }
    proof {
        assert(t@.subrange(i as int, i + pat@.len()) =~= pat@);
    }
    true
}

fn render_from(t: &str, ctx: &Template, i: usize) -> (r: String)
    requires
        i <= t@.len(),
    ensures
        r@ == spec_render_from(t@, ctx@, i as int),
    decreases t@.len() - i,
{
    if i >= t.unicode_len() {
        let r = String::new();
        proof {
            assert(r@ =~= spec_render_from(t@, ctx@, i as int));
        }
        return r;
    }
    proof {
        reveal_strlit("{{prev_version}}");
        reveal_strlit("{{version}}");
        reveal_strlit("{{next_version}}");
        reveal_strlit("{{crate_name}}");
        reveal_strlit("{{tag_name}}");
        reveal_strlit("{{prefix}}");
        reveal_strlit("{{date}}");
        assert("{{prev_version}}"@ =~= ph_prev_version());
        assert("{{version}}"@ =~= ph_version());
        assert("{{next_version}}"@ =~= ph_next_version());
        assert("{{crate_name}}"@ =~= ph_crate_name());
        assert("{{tag_name}}"@ =~= ph_tag_name());
        assert("{{prefix}}"@ =~= ph_prefix());
        assert("{{date}}"@ =~= ph_date());
    }
    if pat_at_exec(t, i, "{{prev_version}}") && ctx.prev_version.is_some() {
        let mut s = match &ctx.prev_version {
            Option::Some(v) => v.clone(),
            Option::None => String::new(),
        };
        let rest = render_from(t, ctx, i + 16);
        s.append(rest.as_str());
        proof {
            assert(s@ =~= spec_render_from(t@, ctx@, i as int));
        }
        s
    } else if pat_at_exec(t, i, "{{version}}") && ctx.version.is_some() {
        let mut s = match &ctx.version {
            Option::Some(v) => v.clone(),
            Option::None => String::new(),
        };
        let rest = render_from(t, ctx, i + 11);
        s.append(rest.as_str());
        proof {
            assert(s@ =~= spec_render_from(t@, ctx@, i as int));
        }
        s
    } else if pat_at_exec(t, i, "{{next_version}}") && ctx.next_version.is_some() {
        let mut s = match &ctx.next_version {
            Option::Some(v) => v.clone(),
            Option::None => String::new(),
        };
        let rest = render_from(t, ctx, i + 16);
        s.append(rest.as_str());
        proof {
            assert(s@ =~= spec_render_from(t@, ctx@, i as int));
        }
        s
    } else if pat_at_exec(t, i, "{{crate_name}}") && ctx.crate_name.is_some() {
        let mut s = match &ctx.crate_name {
            Option::Some(v) => v.clone(),
            Option::None => String::new(),
        };
        let rest = render_from(t, ctx, i + 14);
        s.append(rest.as_str());
        proof {
            assert(s@ =~= spec_render_from(t@, ctx@, i as int));
        }
        s
    } else if pat_at_exec(t, i, "{{tag_name}}") && ctx.tag_name.is_some() {
        let mut s = match &ctx.tag_name {
            Option::Some(v) => v.clone(),
            Option::None => String::new(),
        };
        let rest = render_from(t, ctx, i + 12);
        s.append(rest.as_str());
        proof {
            assert(s@ =~= spec_render_from(t@, ctx@, i as int));
        }
        s
    } else if pat_at_exec(t, i, "{{prefix}}") && ctx.prefix.is_some() {
        let mut s = match &ctx.prefix {
            Option::Some(v) => v.clone(),
            Option::None => String::new(),
        };
        let rest = render_from(t, ctx, i + 10);
        s.append(rest.as_str());
        proof {
            assert(s@ =~= spec_render_from(t@, ctx@, i as int));
        }
        s
    } else if pat_at_exec(t, i, "{{date}}") && ctx.date.is_some() {
        let mut s = match &ctx.date {
            Option::Some(v) => v.clone(),
            Option::None => String::new(),
        };
        let rest = render_from(t, ctx, i + 8);
        s.append(rest.as_str());
        proof {
            assert(s@ =~= spec_render_from(t@, ctx@, i as int));
        }
        s
    } else {
        let mut s = String::from_str(t.substring_char(i, i + 1));
        let rest = render_from(t, ctx, i + 1);
        s.append(rest.as_str());
        proof {
            assert(t@.subrange(i as int, i + 1) =~= seq![t@[i as int]]);
            assert(s@ =~= spec_render_from(t@, ctx@, i as int));
        }
        s
    }
}

impl Template {
    /// Renders `t` against this context, per [`spec_render`].
    pub fn render(&self, t: &str) -> (r: String)
        ensures
            r@ == spec_render(t@, self@),
    {
        render_from(t, self, 0)
    }
}

} // verus!
