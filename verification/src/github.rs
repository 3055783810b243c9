//! The content source: manifest entries, the outbound client configuration,
//! and the aggregation step of the ingestion pipeline. Fetching itself is
//! I/O and lives with the caller; everything here works on the fetched
//! values.

use vstd::prelude::*;

use crate::model::{entities_model, tips_model, Entity, Tip};
use crate::parser::{parse_tips, spec_parse_tips};
use crate::text::chars_of;

verus! {

/// One entry of the remote manifest: a relative path, used to tell content
/// files from documentation, and the locator its body is fetched from.
#[derive(Debug, Clone)]
pub struct Tree {
    pub path: String,
    pub url: String,
}

/// Whether two characters are equal up to ASCII letter case.
pub open spec fn ascii_eq_ignore_case(a: char, b: char) -> bool {
    ||| a == b
    ||| ('A' <= a && a <= 'Z' && (b as u32) == (a as u32) + 32)
    ||| ('A' <= b && b <= 'Z' && (a as u32) == (b as u32) + 32)
}

/// Whether two character sequences are equal up to ASCII letter case.
pub open spec fn seq_eq_ignore_case(s: Seq<char>, t: Seq<char>) -> bool {
    s.len() == t.len() && forall|i: int|
        0 <= i < s.len() ==> ascii_eq_ignore_case(#[trigger] s[i], t[i])
}

/// Whether a manifest path names the repository's README, compared without
/// regard to letter case.
pub open spec fn spec_is_readme(path: Seq<char>) -> bool {
    seq_eq_ignore_case(path, "README.md"@)
}

fn char_eq_ignore_case(a: char, b: char) -> (r: bool)
    ensures
        r == ascii_eq_ignore_case(a, b),
{
    a == b || ('A' <= a && a <= 'Z' && (b as u32) == (a as u32) + 32) || ('A' <= b && b <= 'Z'
        && (a as u32) == (b as u32) + 32)
}

impl Tree {
    /// Whether this entry is the repository's README — documentation, not
    /// tip content, so the pipeline skips it.
    pub fn is_readme(&self) -> (r: bool)
        ensures
            r == spec_is_readme(self.path@),
    {
        proof {
            reveal_strlit("README.md");
        }
        let p = chars_of(self.path.as_str());
        let q = chars_of("README.md");
        if p.len() != q.len() {
            return false;
        }
        let n = p.len();
        for i in 0..n
            invariant
                n == p.len() == q.len(),
                p@ == self.path@,
                q@ == "README.md"@,
                forall|k: int| 0 <= k < i ==> ascii_eq_ignore_case(#[trigger] p@[k], q@[k]),
        {
            if !char_eq_ignore_case(p[i], q[i]) {
                proof {
                    reveal_strlit("README.md");
                    assert(q@ == "README.md"@);
                    assert(p@[i as int] == self.path@[i as int]);
                    assert(!ascii_eq_ignore_case(self.path@[i as int], "README.md"@[i as int]));
                }
                return false;
            }
        }
        true
    }
}

/// Outbound request configuration, read once per client construction: the
/// user-agent and accept header values, and an optional bearer credential.
/// Absent overrides fall back to the default agent string and the API's
/// media type.
#[derive(Debug, Clone)]
pub struct ClientConfig {
    pub user_agent: String,
    pub accept: String,
    pub token: Option<String>,
}

impl ClientConfig {
    /// Builds the configuration from optional overrides (in deployment,
    /// environment values handed in by the caller).
    pub fn new(agent: Option<String>, accept: Option<String>, token: Option<String>) -> (c:
        ClientConfig)
        ensures
            match agent {
                Option::Some(a) => c.user_agent@ == a@,
                Option::None => c.user_agent@ == "laravel-tips"@,
            },
            match accept {
                Option::Some(a) => c.accept@ == a@,
                Option::None => c.accept@ == "application/vnd.github.v3+json"@,
            },
            c.token == token,
    {
        let user_agent = match agent {
            Option::Some(a) => a,
            Option::None => String::from_str("laravel-tips"),
        };
        let accept_value = match accept {
            Option::Some(a) => a,
            Option::None => String::from_str("application/vnd.github.v3+json"),
        };
        ClientConfig { user_agent, accept: accept_value, token }
    }

    /// The authorization header value carrying a bearer credential.
    pub fn bearer_value(token: &str) -> (r: String)
        ensures
            r@ == "Bearer "@ + token@,
    {
        String::from_str("Bearer ").concat(token)
    }
}

/// Pipeline records for parsed tips, under the flat placeholder identity.
pub open spec fn with_empty_id(tips: Seq<(Seq<char>, Seq<char>)>) -> Seq<
    (Seq<char>, Seq<char>, Seq<char>),
> {
    tips.map_values(|t: (Seq<char>, Seq<char>)| (Seq::<char>::empty(), t.0, t.1))
}

/// Assigns the flat placeholder identity to parsed tips, keeping their
/// order.
pub fn convert_tips_to_entities(tips: &Vec<Tip>) -> (es: Vec<Entity>)
    ensures
        entities_model(es@) == with_empty_id(tips_model(tips@)),
{
    let mut es: Vec<Entity> = Vec::new();
    let n = tips.len();
    proof {
        assert(entities_model(es@) =~= with_empty_id(tips_model(tips@)).take(0));
    }
    for i in 0..n
        invariant
            n == tips.len(),
            entities_model(es@) == with_empty_id(tips_model(tips@)).take(i as int),
    {
        let ghost prev = entities_model(es@);
        let t = &tips[i];
        let e = Entity { id: String::new(), title: t.title.clone(), content: t.content.clone() };
        es.push(e);
        proof {
            assert(entities_model(es@) =~= prev.push(e.model()));
            assert(with_empty_id(tips_model(tips@)).take(i + 1)
                =~= with_empty_id(tips_model(tips@)).take(i as int).push(
                with_empty_id(tips_model(tips@))[i as int],
            ));
            assert(e.model() == with_empty_id(tips_model(tips@))[i as int]);
        }
    }
    proof {
        assert(with_empty_id(tips_model(tips@)).take(n as int) =~= with_empty_id(
            tips_model(tips@),
        ));
    }
    es
}

/// The records harvested from a set of per-file fetch outcomes: a file that
/// failed to fetch (`None`) or whose body fails to decode contributes
/// nothing; every body that parses contributes its tips in order, under the
/// placeholder identity.
pub open spec fn spec_collect_tips(bodies: Seq<Option<Seq<char>>>) -> Seq<
    (Seq<char>, Seq<char>, Seq<char>),
>
    decreases bodies.len(),
{
    if bodies.len() == 0 {
        Seq::empty()
    } else {
        spec_collect_tips(bodies.drop_last()) + match bodies.last() {
            Option::None => Seq::empty(),
            Option::Some(b) => match spec_parse_tips(b) {
                Ok(tips) => with_empty_id(tips),
                Err(_) => Seq::empty(),
            },
        }
    }
}

/// Aggregates the whole sync run from the fetched file bodies: a
/// best-effort harvest in which each failed fetch or undecodable body only
/// reduces the yield, never aborts the run.
pub fn parse_all_laravel_tips(bodies: &Vec<Option<String>>) -> (es: Vec<Entity>)
    ensures
        entities_model(es@) == spec_collect_tips(bodies.deep_view()),
{
    let ghost bs = bodies.deep_view();
    let mut es: Vec<Entity> = Vec::new();
    proof {
        assert(bs.take(0) =~= Seq::<Option<Seq<char>>>::empty());
        assert(entities_model(es@) =~= spec_collect_tips(bs.take(0)));
    }
    let n = bodies.len();
    let mut i: usize = 0;
    while i < n
        invariant
            i <= n,
            n == bodies.len(),
            bs == bodies.deep_view(),
            entities_model(es@) == spec_collect_tips(bs.take(i as int)),
        decreases n - i,
    {
        let ghost prev = entities_model(es@);
        proof {
            assert(bs.take(i + 1).drop_last() =~= bs.take(i as int));
            assert(bs.take(i + 1).last() == bs[i as int]);
        }
        match &bodies[i] {
            Option::Some(body) => {
                proof {
                    assert(bs[i as int] matches Option::Some(b) && b == body@);
                }
                match parse_tips(body.clone()) {
                    Ok(tips) => {
                        let mut batch = convert_tips_to_entities(&tips);
                        let ghost batch_model = entities_model(batch@);
                        es.append(&mut batch);
                        proof {
                            assert(entities_model(es@) =~= prev + batch_model);
                        }
                    },
                    Err(_) => {
                        proof {
                            assert(entities_model(es@) =~= prev
                                + Seq::<(Seq<char>, Seq<char>, Seq<char>)>::empty());
                        }
                    },
                }
            },
            Option::None => {
                proof {
                    assert(entities_model(es@) =~= prev
                        + Seq::<(Seq<char>, Seq<char>, Seq<char>)>::empty());
                }
            },
        }
        i = i + 1;
    }
    proof {
        assert(bs.take(n as int) =~= bs);
    }
    es
}

} // verus!
