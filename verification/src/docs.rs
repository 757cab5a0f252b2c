//! The pure text logic of the API-documentation addons.
//!
//! The documentation generator walks its own document structure in the
//! surrounding binary; what it needs computed — the tag list of an
//! operation, the required-grants block appended to a description — is
//! plain string work and is done here.

use vstd::prelude::*;
use vstd::string::StrSliceExecFns;
use vstd::string::StringExecFns;

verus! {

/// `s` names a code path: it starts with `crate::`.
pub open spec fn crate_prefixed(s: Seq<char>) -> bool {
    &&& s.len() >= 7
    &&& s[0] == 'c'
    &&& s[1] == 'r'
    &&& s[2] == 'a'
    &&& s[3] == 't'
    &&& s[4] == 'e'
    &&& s[5] == ':'
    &&& s[6] == ':'
}

/// The tags kept when an operation is retagged: those that do not name a
/// code path, in order.
pub open spec fn kept_tags(tags: Seq<Seq<char>>) -> Seq<Seq<char>>
    decreases tags.len(),
{
    if tags.len() == 0 {
        Seq::empty()
    } else if crate_prefixed(tags.last()) {
        kept_tags(tags.drop_last())
    } else {
        kept_tags(tags.drop_last()).push(tags.last())
    }
}

/// Whether `s` starts with `crate::`.
fn has_crate_prefix(s: &String) -> (b: bool)
    ensures
        b == crate_prefixed(s@),
{
    let n = s.as_str().unicode_len();
    if n < 7 {
        return false;
    }
    let sl = s.as_str();
    sl.get_char(0) == 'c' && sl.get_char(1) == 'r' && sl.get_char(2) == 'a' && sl.get_char(3)
        == 't' && sl.get_char(4) == 'e' && sl.get_char(5) == ':' && sl.get_char(6) == ':'
}

/// The documentation addon that retags every operation under one
/// catch-all tag; the generator's walk over the document drives
/// [`AutoTagAddon::retag`] over each operation's tags.
pub struct AutoTagAddon;

/// The documentation addon that records, on every operation secured by
/// JWT grants, which grants open it; the generator's walk drives
/// [`JwtGrantsAddon::required_grants_text`], [`JwtGrantsAddon::merge_description`]
/// and [`JwtGrantsAddon::merge_response_description`] over each secured
/// operation.
pub struct JwtGrantsAddon;

impl AutoTagAddon {
    /// Retag one documented operation: drop every tag that names a code
    /// path, keep the rest in order, and append the catch-all tag
    /// `All routes`.
    pub fn retag(tags: Vec<String>) -> (r: Vec<String>)
        ensures
            r.deep_view() == kept_tags(tags.deep_view()).push("All routes"@),
    {
        let mut r: Vec<String> = Vec::new();
        let n = tags.len();
        let mut i: usize = 0;
        while i < n
            invariant
                n == tags@.len(),
                i <= n,
                r.deep_view() == kept_tags(tags.deep_view().take(i as int)),
            decreases n - i,
        {
            proof {
                assert(tags.deep_view().take(i + 1).drop_last() =~= tags.deep_view().take(
                    i as int,
                ));
                assert(tags.deep_view().take(i + 1).last() == tags@[i as int]@);
            }
            if !has_crate_prefix(&tags[i]) {
                r.push(tags[i].clone());
                proof {
                    assert(r.deep_view() =~= kept_tags(tags.deep_view().take(i + 1)));
                }
            }
            i += 1;
        }
        proof {
            assert(tags.deep_view().take(n as int) =~= tags.deep_view());
        }
        r.push("All routes".to_owned());
        proof {
            assert(r.deep_view() =~= kept_tags(tags.deep_view()).push("All routes"@));
        }
        r
    }
}

impl JwtGrantsAddon {
    /// Merge an addition into an operation's description: an absent or
    /// empty description becomes the addition alone; otherwise the
    /// addition follows the description after a paragraph break.
    pub fn merge_description(existing: Option<String>, addition: &str) -> (r: String)
        ensures
            r@ == match existing {
                None => addition@,
                Some(d) => if d@.len() == 0 {
                    addition@
                } else {
                    d@ + "<br><br>"@ + addition@
                },
            },
    {
        match existing {
            None => addition.to_owned(),
            Some(d) => {
                if d.as_str().unicode_len() == 0 {
                    addition.to_owned()
                } else {
                    let mut d = d;
                    d.append("<br><br>");
                    d.append(addition);
                    d
                }
            },
        }
    }

    /// Merge one more answer into a response's description: an absent
    /// description becomes the answer alone; an existing one keeps its
    /// text and gains the answer after an `or` separator.
    pub fn merge_response_description(existing: Option<String>, response: &str) -> (r: String)
        ensures
            r@ == match existing {
                None => response@,
                Some(d) => d@ + "<br>or<br>"@ + response@,
            },
    {
        match existing {
            None => response.to_owned(),
            Some(d) => {
                let mut d = d;
                d.append("<br>or<br>");
                d.append(response);
                d
            },
        }
    }
}

/// One line's worth of grants, joined with commas.
pub open spec fn joined_grants(parts: Seq<Seq<char>>) -> Seq<char>
    decreases parts.len(),
{
    if parts.len() == 0 {
        Seq::empty()
    } else if parts.len() == 1 {
        parts[0]
    } else {
        joined_grants(parts.drop_last()) + ", "@ + parts.last()
    }
}

/// The lines of the required-grants block: one line per security
/// requirement, `None` standing for a requirement without grants.
pub open spec fn grants_lines(groups: Seq<Seq<Seq<char>>>) -> Seq<char>
    decreases groups.len(),
{
    if groups.len() == 0 {
        Seq::empty()
    } else {
        grants_lines(groups.drop_last()) + "\n\t"@ + (if groups.last().len() == 0 {
            "None"@
        } else {
            joined_grants(groups.last())
        })
    }
}

impl JwtGrantsAddon {
    /// The required-grants block appended to a secured operation's
    /// description: a preformatted list of the grant sets that open the
    /// operation, one indented line per security requirement.
    pub fn required_grants_text(groups: &Vec<Vec<String>>) -> (r: String)
        ensures
            r@ == "<pre>Required grants:"@ + grants_lines(groups.deep_view()) + "</pre>"@,
    {
        let mut r = "<pre>Required grants:".to_owned();
        let ghost head = "<pre>Required grants:"@;
        let n = groups.len();
        let mut i: usize = 0;
        while i < n
            invariant
                n == groups@.len(),
                i <= n,
                r@ == head + grants_lines(groups.deep_view().take(i as int)),
            decreases n - i,
        {
            proof {
                assert(groups.deep_view().take(i + 1).drop_last() =~= groups.deep_view().take(
                    i as int,
                ));
                assert(groups.deep_view().take(i + 1).last() == groups@[i as int].deep_view());
            }
            r.append("\n\t");
            let group = &groups[i];
            if group.len() == 0 {
                r.append("None");
                proof {
                    assert(r@ =~= head + grants_lines(groups.deep_view().take(i + 1)));
                }
            } else {
                let ghost base = r@;
                let m = group.len();
                let mut j: usize = 0;
                while j < m
                    invariant
                        m == group@.len(),
                        m > 0,
                        j <= m,
                        r@ == base + joined_grants(group.deep_view().take(j as int)),
                    decreases m - j,
                {
                    proof {
                        assert(group.deep_view().take(j + 1).drop_last()
                            =~= group.deep_view().take(j as int));
                        assert(group.deep_view().take(j + 1).last() == group@[j as int]@);
                    }
                    if j > 0 {
                        r.append(", ");
                    }
                    r.append(group[j].as_str());
                    proof {
                        assert(r@ =~= base + joined_grants(group.deep_view().take(j + 1)));
                    }
                    j += 1;
                }
                proof {
                    assert(group.deep_view().take(m as int) =~= group.deep_view());
                    assert(r@ =~= head + grants_lines(groups.deep_view().take(i + 1)));
                }
            }
            i += 1;
        }
        proof {
            assert(groups.deep_view().take(n as int) =~= groups.deep_view());
        }
        r.append("</pre>");
        proof {
            assert(r@ =~= head + grants_lines(groups.deep_view()) + "</pre>"@);
        }
        r
    }
}

} // verus!
