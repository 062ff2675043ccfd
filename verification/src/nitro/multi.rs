//! Multi-agent configuration pieces: id lists, `${VAR}` references, agent
//! paths and the agent check.

use vstd::prelude::*;
use std::collections::HashSet;
use crate::text::{
    chars_of, find, find_in, lemma_find_bounds, parse_i64_in, parse_i64_spec, parse_u64_in,
    parse_u64_spec, bounds_within, piece_bounds, pieces_of, push_str, split_pieces, string_of, trim, trim_bounds,
};

verus! {

broadcast use vstd::std_specs::hash::group_hash_axioms;

/// The ids in a comma-separated list: every piece that, trimmed, parses as
/// a `u64`.
pub open spec fn id_set_u64(raw: Seq<char>) -> Set<u64> {
    Set::new(
        |x: u64|
            exists|j: int|
                0 <= j < split_pieces(raw, ',').len() && parse_u64_spec(
                    trim(#[trigger] split_pieces(raw, ',')[j]),
                ) == Some(x as nat),
    )
}

/// The ids in a comma-separated list: every piece that, trimmed, parses as
/// an `i64`.
pub open spec fn id_set_i64(raw: Seq<char>) -> Set<i64> {
    Set::new(
        |x: i64|
            exists|j: int|
                0 <= j < split_pieces(raw, ',').len() && parse_i64_spec(
                    trim(#[trigger] split_pieces(raw, ',')[j]),
                ) == Some(x as int),
    )
}

/// Parse a comma-separated list of unsigned ids, skipping entries that are
/// blank or do not parse.
pub fn parse_id_list_u64(raw: &str) -> (ids: HashSet<u64>)
    ensures
        ids@ == id_set_u64(raw@),
{
    let v = chars_of(raw);
    let bounds = piece_bounds(&v, ',');
    let ghost ps = split_pieces(v@, ',');
    let mut ids: HashSet<u64> = HashSet::new();
    let mut j: usize = 0;
    while j < bounds.len()
        invariant
            j <= bounds.len(),
            bounds@.len() == ps.len(),
            ps == split_pieces(v@, ','),
            bounds_within(v@, bounds@),
            pieces_of(v@, bounds@) == ps,
            ids@ == Set::new(
                |x: u64|
                    exists|k: int|
                        0 <= k < j && parse_u64_spec(trim(#[trigger] ps[k])) == Some(x as nat),
            ),
        decreases bounds.len() - j,
    {
        let (s, e) = bounds[j];
        proof {
            assert(pieces_of(v@, bounds@)[j as int] == v@.subrange(s as int, e as int));
        }
        let (a, b) = trim_bounds(&v, s, e);
        let ghost old_ids = ids@;
        match parse_u64_in(&v, a, b) {
            Some(x) => {
                ids.insert(x);
            },
            None => {},
        }
        proof {
            let target = Set::new(
                |x: u64|
                    exists|k: int|
                        0 <= k < j + 1 && parse_u64_spec(trim(#[trigger] ps[k])) == Some(x as nat),
            );
            assert forall|x: u64| target.contains(x) implies ids@.contains(x) by {
                let k = choose|k: int|
                    0 <= k < j + 1 && parse_u64_spec(trim(#[trigger] ps[k])) == Some(x as nat);
                if k < j {
                    assert(old_ids.contains(x));
                }
            }
            assert forall|x: u64| ids@.contains(x) implies target.contains(x) by {
                if !old_ids.contains(x) {
                    assert(parse_u64_spec(trim(ps[j as int])) == Some(x as nat));
                }
            }
            assert(ids@ =~= target);
        }
        j = j + 1;
    }
    assert(v@ == raw@);
    assert(ids@ =~= id_set_u64(raw@));
    ids
}

/// Parse a comma-separated list of signed ids (group chats), skipping
/// entries that are blank or do not parse.
pub fn parse_id_list_i64(raw: &str) -> (ids: HashSet<i64>)
    ensures
        ids@ == id_set_i64(raw@),
{
    let v = chars_of(raw);
    let bounds = piece_bounds(&v, ',');
    let ghost ps = split_pieces(v@, ',');
    let mut ids: HashSet<i64> = HashSet::new();
    let mut j: usize = 0;
    while j < bounds.len()
        invariant
            j <= bounds.len(),
            bounds@.len() == ps.len(),
            ps == split_pieces(v@, ','),
            bounds_within(v@, bounds@),
            pieces_of(v@, bounds@) == ps,
            ids@ == Set::new(
                |x: i64|
                    exists|k: int|
                        0 <= k < j && parse_i64_spec(trim(#[trigger] ps[k])) == Some(x as int),
            ),
        decreases bounds.len() - j,
    {
        let (s, e) = bounds[j];
        proof {
            assert(pieces_of(v@, bounds@)[j as int] == v@.subrange(s as int, e as int));
        }
        let (a, b) = trim_bounds(&v, s, e);
        let ghost old_ids = ids@;
        match parse_i64_in(&v, a, b) {
            Some(x) => {
                ids.insert(x);
            },
            None => {},
        }
        proof {
            let target = Set::new(
                |x: i64|
                    exists|k: int|
                        0 <= k < j + 1 && parse_i64_spec(trim(#[trigger] ps[k])) == Some(x as int),
            );
            assert forall|x: i64| target.contains(x) implies ids@.contains(x) by {
                let k = choose|k: int|
                    0 <= k < j + 1 && parse_i64_spec(trim(#[trigger] ps[k])) == Some(x as int);
                if k < j {
                    assert(old_ids.contains(x));
                }
            }
            assert forall|x: i64| ids@.contains(x) implies target.contains(x) by {
                if !old_ids.contains(x) {
                    assert(parse_i64_spec(trim(ps[j as int])) == Some(x as int));
                }
            }
            assert(ids@ =~= target);
        }
        j = j + 1;
    }
    assert(v@ == raw@);
    assert(ids@ =~= id_set_i64(raw@));
    ids
}

/// A `${NAME}` reference found in a value: it spans `start..end` (in
/// characters) and names `name`.
pub struct EnvReference {
    pub start: usize,
    pub end: usize,
    pub name: String,
}

/// The first `${NAME}` reference of `s`: the first `${` and the first `}`
/// after it. `None` when there is no `${`, or no `}` after it.
pub open spec fn env_reference(s: Seq<char>) -> Option<(int, int)> {
    let i = find(s, "${"@);
    if i < 0 {
        None
    } else {
        let j = find(s.skip(i), "}"@);
        if j < 0 {
            None
        } else {
            Some((i, i + j + 1))
        }
    }
}

/// Finds the next `${NAME}` reference to expand in `s`.
pub fn next_env_reference(s: &str) -> (r: Option<EnvReference>)
    ensures
        match r {
            None => env_reference(s@) is None,
            Some(x) => env_reference(s@) == Some((x.start as int, x.end as int)) && x.start + 2
                <= x.end - 1 && x.end <= s@.len() && x.name@ == s@.subrange(
                x.start + 2,
                x.end - 1,
            ),
        },
{
    let v = chars_of(s);
    let mut open: Vec<char> = Vec::new();
    open.push('$');
    open.push('{');
    let mut close: Vec<char> = Vec::new();
    close.push('}');
    proof {
        reveal_strlit("${");
        reveal_strlit("}");
        assert(open@ =~= "${"@);
        assert(close@ =~= "}"@);
    }
    assert(v@.subrange(0, v@.len() as int) =~= s@);
    let i = match find_in(&v, 0, v.len(), &open) {
        Some(i) => i,
        None => {
            return None;
        },
    };
    proof {
        lemma_find_bounds(s@, "${"@);
        assert(v@.subrange(i as int, v@.len() as int) =~= s@.skip(i as int));
    }
    let j = match find_in(&v, i, v.len(), &close) {
        Some(j) => j,
        None => {
            return None;
        },
    };
    proof {
        lemma_find_bounds(s@.skip(i as int), "}"@);
        // the `}` cannot be one of the two characters of `${`
        assert(s@.subrange(i as int, i + 2) == "${"@);
        assert(s@.subrange(i as int, i + 2)[0] == s@[i as int]);
        assert(s@.subrange(i as int, i + 2)[1] == s@[i + 1]);
        assert(s@[i as int] == '$' && s@[i + 1] == '{');
        assert(s@.skip(i as int).subrange(j - i, j - i + 1) == "}"@);
        assert(s@.skip(i as int).subrange(j - i, j - i + 1)[0] == s@[j as int]);
        assert(s@[j as int] == '}');
    }
    let name = string_of(&v, i + 2, j);
    Some(EnvReference { start: i, end: j + 1, name })
}

/// Replaces the reference `r` of `s` by `value`.
pub fn substitute_reference(s: &str, r: &EnvReference, value: &str) -> (t: String)
    requires
        r.start <= r.end <= s@.len(),
    ensures
        t@ == s@.take(r.start as int) + value@ + s@.skip(r.end as int),
{
    let v = chars_of(s);
    let mut t = string_of(&v, 0, r.start);
    push_str(&mut t, value);
    let rest = string_of(&v, r.end, v.len());
    push_str(&mut t, rest.as_str());
    assert(v@.subrange(0, r.start as int) =~= s@.take(r.start as int));
    assert(v@.subrange(r.end as int, v@.len() as int) =~= s@.skip(r.end as int));
    t
}

/// The base directory of per-agent data: `{home}/.nitro-agent`.
pub fn base_dir(home: &str) -> (d: String)
    ensures
        d@ == home@ + "/.nitro-agent"@,
{
    let mut d = home.to_string();
    push_str(&mut d, "/.nitro-agent");
    d
}

/// A path derived from the agent name: `{base}/{dir}/{name}{ext}`.
pub fn agent_path(base: &str, dir: &str, name: &str, ext: &str) -> (p: String)
    ensures
        p@ == base@ + "/"@ + dir@ + "/"@ + name@ + ext@,
{
    let mut p = base.to_string();
    push_str(&mut p, "/");
    push_str(&mut p, dir);
    push_str(&mut p, "/");
    push_str(&mut p, name);
    push_str(&mut p, ext);
    p
}

/// Checks an agent entry once its token is expanded and its user ids
/// parsed: the token must not be empty and at least one id must parse.
pub fn check_agent(name: &str, token: &str, user_ids: &HashSet<u64>) -> (r: Result<(), String>)
    ensures
        token@.len() == 0 ==> r is Err && r->Err_0@ == "agent."@ + name@
            + ": telegram_bot_token is empty (check env var reference)"@,
        token@.len() > 0 && user_ids@.is_empty() ==> r is Err && r->Err_0@ == "agent."@ + name@
            + ": allowed_user_ids must contain at least one valid ID"@,
        token@.len() > 0 && !user_ids@.is_empty() ==> r is Ok,
{
    if token.is_empty() {
        let mut m = "agent.".to_string();
        push_str(&mut m, name);
        push_str(&mut m, ": telegram_bot_token is empty (check env var reference)");
        return Err(m);
    }
    if user_ids.is_empty() {
        let mut m = "agent.".to_string();
        push_str(&mut m, name);
        push_str(&mut m, ": allowed_user_ids must contain at least one valid ID");
        return Err(m);
    }
    Ok(())
}

} // verus!
