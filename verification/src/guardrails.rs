//! Guardrails that gate the apply subsystem: the command-policy matcher
//! (forbidden-command detection with alias resolution) and a loop guard on
//! planned edit counts.

use crate::error::HarnessError;
use crate::strutil::{tokenize, tokens_of, views_of};
use vstd::prelude::*;

verus! {

/// Edit-count threshold used when the caller does not supply one.
pub const DEFAULT_EDIT_THRESHOLD: u32 = 25;

/// Upper bound on alias-resolution rounds.
pub const MAX_ALIAS_DEPTH: u32 = 8;

/// A command policy: forbidden token sequences and an alias table.  The
/// alias table keeps at most one expansion per alias name; a later insert
/// for the same name replaces the earlier one.
pub struct CommandPolicy {
    pub forbidden: Vec<String>,
    pub aliases: Vec<(String, String)>,
}

/// The views of a sequence of alias pairs.
pub open spec fn alias_views(a: Seq<(String, String)>) -> Seq<(Seq<char>, Seq<char>)> {
    a.map_values(|p: (String, String)| (p.0@, p.1@))
}

/// The expansion bound to an alias name: the first matching entry.
pub open spec fn alias_val(aliases: Seq<(Seq<char>, Seq<char>)>, key: Seq<char>) -> Option<
    Seq<char>,
>
    decreases aliases.len(),
{
    if aliases.len() == 0 {
        None
    } else if aliases[0].0 == key {
        Some(aliases[0].1)
    } else {
        alias_val(aliases.skip(1), key)
    }
}

/// The alias table after binding `k` to `v`: the first entry holding `k`
/// is replaced in place, or the pair is appended when `k` is absent.
pub open spec fn upsert(
    s: Seq<(Seq<char>, Seq<char>)>,
    k: Seq<char>,
    v: Seq<char>,
) -> Seq<(Seq<char>, Seq<char>)>
    decreases s.len(),
{
    if s.len() == 0 {
        seq![(k, v)]
    } else if s[0].0 == k {
        seq![(k, v)] + s.skip(1)
    } else {
        seq![s[0]] + upsert(s.skip(1), k, v)
    }
}

/// Membership of a character sequence in a sequence of them.
pub open spec fn seq_has(v: Seq<Seq<char>>, x: Seq<char>) -> bool {
    exists|i: int| 0 <= i < v.len() && v[i] == x
}

/// One-head-at-a-time alias expansion over token lists: while fuel remains,
/// replace a head token bound in the alias table by that expansion's tokens,
/// stopping as soon as a head repeats (the cycle guard) or no alias matches.
pub open spec fn expand_spec(
    toks: Seq<Seq<char>>,
    aliases: Seq<(Seq<char>, Seq<char>)>,
    seen: Seq<Seq<char>>,
    fuel: nat,
) -> Seq<Seq<char>>
    decreases fuel,
{
    if fuel == 0 || toks.len() == 0 || seq_has(seen, toks[0]) {
        toks
    } else {
        match alias_val(aliases, toks[0]) {
            Option::None => toks,
            Option::Some(target) => expand_spec(
                tokens_of(target) + toks.skip(1),
                aliases,
                seen.push(toks[0]),
                (fuel - 1) as nat,
            ),
        }
    }
}

/// Token-prefix test: `p` is a prefix of `w`.
pub open spec fn is_token_prefix(p: Seq<Seq<char>>, w: Seq<Seq<char>>) -> bool {
    p.len() <= w.len() && forall|i: int| 0 <= i < p.len() ==> p[i] == w[i]
}

/// A candidate token list matches a rule token list when both are nonempty
/// and either is a token-prefix of the other.
pub open spec fn tokens_match(c: Seq<Seq<char>>, r: Seq<Seq<char>>) -> bool {
    c.len() > 0 && r.len() > 0 && (is_token_prefix(c, r) || is_token_prefix(r, c))
}

/// Whether a policy forbids a command: after alias expansion of the
/// command's tokens, some forbidden rule's tokens match.
pub open spec fn forbids_spec(
    forbidden: Seq<Seq<char>>,
    aliases: Seq<(Seq<char>, Seq<char>)>,
    cmd: Seq<char>,
) -> bool {
    let e = expand_spec(tokens_of(cmd), aliases, Seq::empty(), MAX_ALIAS_DEPTH as nat);
    e.len() > 0 && exists|i: int|
        0 <= i < forbidden.len() && tokens_match(e, tokens_of(#[trigger] forbidden[i]))
}

impl CommandPolicy {
    /// Whether this policy forbids the command.
    pub open spec fn forbids(&self, cmd: Seq<char>) -> bool {
        forbids_spec(views_of(self.forbidden@), alias_views(self.aliases@), cmd)
    }

    /// Adds one forbidden rule.
    pub fn push_forbidden(&mut self, rule: String)
        ensures
            final(self).forbidden@ == old(self).forbidden@.push(rule),
            final(self).aliases@ == old(self).aliases@,
    {
        self.forbidden.push(rule);
    }

    /// Binds an alias name to an expansion, replacing an earlier binding of
    /// the same name.
    pub fn insert_alias(&mut self, name: String, target: String)
        ensures
            final(self).forbidden@ == old(self).forbidden@,
            alias_views(final(self).aliases@) == upsert(
                alias_views(old(self).aliases@),
                name@,
                target@,
            ),
    {
        let ghost key = name@;
        let ghost tgt = target@;
        let ghost a_old = alias_views(self.aliases@);
        let n = self.aliases.len();
        let mut i: usize = 0;
        while i < n
            invariant
                i <= n,
                n == self.aliases@.len(),
                *self == *old(self),
                a_old == alias_views(self.aliases@),
                key == name@,
                tgt == target@,
                forall|j: int| 0 <= j < i ==> alias_views(self.aliases@)[j].0 != name@,
            decreases n - i,
        {
            if self.aliases[i].0 == name {
                self.aliases[i] = (name, target);
                proof {
                    let a_new = alias_views(self.aliases@);
                    assert(a_new =~= a_old.update(i as int, (key, tgt)));
                    lemma_upsert_at(a_old, key, tgt, i as int);
                }
                return ;
            }
            i = i + 1;
        }
        self.aliases.push((name, target));
        proof {
            let a_new = alias_views(self.aliases@);
            assert(a_new =~= a_old.push((key, tgt)));
            lemma_upsert_absent(a_old, key, tgt);
        }
    }
}

/// When the first entry holding `k` sits at index `i`, upserting is an
/// in-place update there.
proof fn lemma_upsert_at(s: Seq<(Seq<char>, Seq<char>)>, k: Seq<char>, v: Seq<char>, i: int)
    requires
        0 <= i < s.len(),
        s[i].0 == k,
        forall|j: int| 0 <= j < i ==> s[j].0 != k,
    ensures
        upsert(s, k, v) == s.update(i, (k, v)),
    decreases i,
{
    if i == 0 {
        assert(seq![(k, v)] + s.skip(1) =~= s.update(0, (k, v)));
    } else {
        let t = s.skip(1);
        assert(t[i - 1].0 == k);
        assert(forall|j: int| 0 <= j < i - 1 ==> t[j] == s[j + 1] && t[j].0 != k);
        lemma_upsert_at(t, k, v, i - 1);
        assert(seq![s[0]] + t.update(i - 1, (k, v)) =~= s.update(i, (k, v)));
    }
}

/// When no entry holds `k`, upserting appends the pair.
proof fn lemma_upsert_absent(s: Seq<(Seq<char>, Seq<char>)>, k: Seq<char>, v: Seq<char>)
    requires
        forall|j: int| 0 <= j < s.len() ==> s[j].0 != k,
    ensures
        upsert(s, k, v) == s.push((k, v)),
    decreases s.len(),
{
    if s.len() == 0 {
        assert(upsert(s, k, v) =~= s.push((k, v)));
    } else {
        let t = s.skip(1);
        assert(forall|j: int| 0 <= j < t.len() ==> t[j] == s[j + 1] && t[j].0 != k);
        lemma_upsert_absent(t, k, v);
        assert(seq![s[0]] + t.push((k, v)) =~= s.push((k, v)));
    }
}

/// The rules of the built-in policy.
pub open spec fn default_forbidden_rules() -> Seq<Seq<char>> {
    seq!["git push --force"@, "git reset --hard"@, "rm -rf"@, "sudo rm -rf"@]
}

/// Whether the built-in policy forbids a command.
pub open spec fn default_forbids(cmd: Seq<char>) -> bool {
    forbids_spec(default_forbidden_rules(), Seq::empty(), cmd)
}


impl Default for CommandPolicy {
    /// The built-in policy: four destructive commands, no aliases.
    fn default() -> (r: Self)
        ensures
            views_of(r.forbidden@) =~= default_forbidden_rules(),
            r.aliases@.len() == 0,
    {
        let mut forbidden: Vec<String> = Vec::new();
        forbidden.push("git push --force".to_owned());
        forbidden.push("git reset --hard".to_owned());
        forbidden.push("rm -rf".to_owned());
        forbidden.push("sudo rm -rf".to_owned());
        CommandPolicy { forbidden, aliases: Vec::new() }
    }
}

pub(crate) fn alias_lookup(aliases: &Vec<(String, String)>, head: &String) -> (r: Option<String>)
    ensures
        match r {
            Option::Some(t) => alias_val(alias_views(aliases@), head@) == Some(t@),
            Option::None => alias_val(alias_views(aliases@), head@) is None,
        },
{
    let n = aliases.len();
    let mut i: usize = 0;
    assert(alias_views(aliases@).skip(0) =~= alias_views(aliases@));
    while i < n
        invariant
            i <= n,
            n == aliases@.len(),
            alias_val(alias_views(aliases@), head@) == alias_val(
                alias_views(aliases@).skip(i as int),
                head@,
            ),
            forall|j: int| 0 <= j < i ==> alias_views(aliases@)[j].0 != head@,
        decreases n - i,
    {
        if aliases[i].0 == *head {
            let t = aliases[i].1.clone();
            assert(alias_views(aliases@).skip(i as int)[0] == (aliases@[i as int].0@, aliases@[i
                as int].1@));
            return Some(t);
        }
        proof {
            let av = alias_views(aliases@);
            assert(av.skip(i as int)[0] == av[i as int]);
            assert(av.skip(i as int).skip(1) =~= av.skip(i + 1));
        }
        i = i + 1;
    }
    assert(alias_views(aliases@).skip(n as int) =~= Seq::<(Seq<char>, Seq<char>)>::empty());
    None
}

pub(crate) fn contains_string(v: &Vec<String>, x: &String) -> (r: bool)
    ensures
        r == seq_has(views_of(v@), x@),
{
    let n = v.len();
    let mut i: usize = 0;
    while i < n
        invariant
            i <= n,
            n == v@.len(),
            forall|j: int| 0 <= j < i ==> views_of(v@)[j] != x@,
        decreases n - i,
    {
        if v[i] == *x {
            assert(views_of(v@)[i as int] == x@);
            return true;
        }
        i = i + 1;
    }
    false
}

/// Resolves aliases in a tokenized command, bounded by `MAX_ALIAS_DEPTH`
/// rounds and by the repeated-head cycle guard.
fn expand_tokens(toks: Vec<String>, aliases: &Vec<(String, String)>) -> (r: Vec<String>)
    ensures
        views_of(r@) == expand_spec(
            views_of(toks@),
            alias_views(aliases@),
            Seq::empty(),
            MAX_ALIAS_DEPTH as nat,
        ),
{
    let ghost orig = views_of(toks@);
    let ghost av = alias_views(aliases@);
    let mut current = toks;
    let mut seen: Vec<String> = Vec::new();
    let mut round: u32 = 0;
    assert(views_of(seen@) =~= Seq::<Seq<char>>::empty());
    loop
        invariant
            round <= MAX_ALIAS_DEPTH,
            expand_spec(
                views_of(current@),
                av,
                views_of(seen@),
                (MAX_ALIAS_DEPTH - round) as nat,
            ) == expand_spec(orig, av, Seq::empty(), MAX_ALIAS_DEPTH as nat),
            av == alias_views(aliases@),
            orig == views_of(toks@),
        decreases MAX_ALIAS_DEPTH - round,
    {
        let ghost fuel = (MAX_ALIAS_DEPTH - round) as nat;
        let ghost cur = views_of(current@);
        let ghost seen_v = views_of(seen@);
        if round >= MAX_ALIAS_DEPTH {
            assert(expand_spec(cur, av, seen_v, fuel) == cur);
            return current;
        }
        if current.len() == 0 {
            assert(expand_spec(cur, av, seen_v, fuel) == cur);
            return current;
        }
        let head = current[0].clone();
        assert(head@ == cur[0]);
        if contains_string(&seen, &head) {
            assert(expand_spec(cur, av, seen_v, fuel) == cur);
            return current;
        }
        match alias_lookup(aliases, &head) {
            Option::None => {
                assert(expand_spec(cur, av, seen_v, fuel) == cur);
                return current;
            },
            Option::Some(target) => {
                let mut next = tokenize(target.as_str());
                let ghost target_toks = tokens_of(target@);
                assert(views_of(next@) =~= target_toks + cur.subrange(1, 1));
                let n = current.len();
                let mut j: usize = 1;
                while j < n
                    invariant
                        1 <= j <= n,
                        n == current@.len(),
                        cur == views_of(current@),
                        views_of(next@) =~= target_toks + cur.subrange(1, j as int),
                    decreases n - j,
                {
                    let ghost prev = next@;
                    let piece = current[j].clone();
                    assert(piece@ == cur[j as int]);
                    next.push(piece);
                    proof {
                        assert(next@ == prev.push(piece));
                        assert(views_of(next@) =~= views_of(prev).push(cur[j as int]));
                        assert(cur.subrange(1, j as int).push(cur[j as int]) =~= cur.subrange(
                            1,
                            j + 1,
                        ));
                        assert(views_of(next@) =~= target_toks + cur.subrange(1, j + 1));
                    }
                    j = j + 1;
                }
                proof {
                    assert(cur.subrange(1, n as int) =~= cur.skip(1));
                    assert(views_of(next@) =~= target_toks + cur.skip(1));
                    assert(views_of(seen@.push(head)) =~= seen_v.push(head@));
                    assert(alias_val(av, cur[0]) == Some(target@));
                    assert(expand_spec(cur, av, seen_v, fuel) == expand_spec(
                        target_toks + cur.skip(1),
                        av,
                        seen_v.push(cur[0]),
                        (fuel - 1) as nat,
                    ));
                }
                seen.push(head);
                current = next;
                round = round + 1;
            },
        }
    }
}

fn starts_with_tokens(left: &Vec<String>, right: &Vec<String>) -> (r: bool)
    ensures
        r == is_token_prefix(views_of(right@), views_of(left@)),
{
    let n = right.len();
    if left.len() < n {
        return false;
    }
    let mut i: usize = 0;
    while i < n
        invariant
            i <= n,
            n == right@.len(),
            n <= left@.len(),
            forall|j: int| 0 <= j < i ==> views_of(right@)[j] == views_of(left@)[j],
        decreases n - i,
    {
        if !(left[i] == right[i]) {
            assert(views_of(right@)[i as int] != views_of(left@)[i as int]);
            return false;
        }
        i = i + 1;
    }
    true
}

fn command_matches(cand: &Vec<String>, rule: &Vec<String>) -> (r: bool)
    ensures
        r == tokens_match(views_of(cand@), views_of(rule@)),
{
    if cand.len() == 0 || rule.len() == 0 {
        return false;
    }
    starts_with_tokens(cand, rule) || starts_with_tokens(rule, cand)
}

/// Decides whether a command is forbidden under the given policy: the
/// command's whitespace tokens, after alias resolution, match some forbidden
/// rule in either prefix direction.
pub fn is_forbidden_with_policy(cmd: &str, policy: &CommandPolicy) -> (r: bool)
    ensures
        r == policy.forbids(cmd@),
{
    let toks = tokenize(cmd);
    let expanded = expand_tokens(toks, &policy.aliases);
    if expanded.len() == 0 {
        return false;
    }
    let n = policy.forbidden.len();
    let mut i: usize = 0;
    while i < n
        invariant
            i <= n,
            n == policy.forbidden@.len(),
            views_of(expanded@) == expand_spec(
                tokens_of(cmd@),
                alias_views(policy.aliases@),
                Seq::empty(),
                MAX_ALIAS_DEPTH as nat,
            ),
            views_of(expanded@).len() > 0,
            forall|j: int|
                0 <= j < i ==> !tokens_match(
                    views_of(expanded@),
                    tokens_of(#[trigger] views_of(policy.forbidden@)[j]),
                ),
        decreases n - i,
    {
        let rule_toks = tokenize(policy.forbidden[i].as_str());
        if command_matches(&expanded, &rule_toks) {
            assert(tokens_match(views_of(expanded@), tokens_of(views_of(policy.forbidden@)[i
                as int])));
            return true;
        }
        i = i + 1;
    }
    false
}

/// Decides whether a command is forbidden under the built-in policy.
pub fn is_forbidden(cmd: &str) -> (r: bool)
    ensures
        r == default_forbids(cmd@),
{
    let policy = CommandPolicy::default();
    let r = is_forbidden_with_policy(cmd, &policy);
    proof {
        assert(alias_views(policy.aliases@) =~= Seq::<(Seq<char>, Seq<char>)>::empty());
    }
    r
}

/// True when the planned edit count has reached the default threshold.
pub fn detect_loop(edits: u32) -> (r: bool)
    ensures
        r == (edits >= DEFAULT_EDIT_THRESHOLD),
{
    detect_loop_with_threshold(edits, DEFAULT_EDIT_THRESHOLD)
}

/// True when the planned edit count has reached `threshold`.
pub fn detect_loop_with_threshold(edits: u32, threshold: u32) -> (r: bool)
    ensures
        r == (edits >= threshold),
{
    edits >= threshold
}

/// Validates a batch of planned commands and an edit count against a policy.
/// Fails closed: the first forbidden command is reported, then the loop
/// guard is checked against the default threshold.
pub fn validate_commands(commands: &Vec<String>, planned_edits: u32, policy: &CommandPolicy) -> (r:
    Result<(), HarnessError>)
    ensures
        match r {
            Result::Ok(_) => (forall|j: int|
                0 <= j < commands@.len() ==> !policy.forbids(
                    #[trigger] commands@[j]@,
                )) && planned_edits < DEFAULT_EDIT_THRESHOLD,
            Result::Err(e) => match e {
                HarnessError::ForbiddenToolAccess(c) => exists|j: int|
                    0 <= j < commands@.len() && #[trigger] commands@[j]@ == c@ && policy.forbids(
                        c@,
                    ),
                HarnessError::ConfigParse(m) => (forall|j: int|
                    0 <= j < commands@.len() ==> !policy.forbids(#[trigger] commands@[j]@))
                    && planned_edits >= DEFAULT_EDIT_THRESHOLD && m@
                    == "loop guard triggered: planned change count exceeds threshold"@,
                _ => false,
            },
        },
{
    let n = commands.len();
    let mut i: usize = 0;
    while i < n
        invariant
            i <= n,
            n == commands@.len(),
            forall|j: int| 0 <= j < i ==> !policy.forbids(#[trigger] commands@[j]@),
        decreases n - i,
    {
        if is_forbidden_with_policy(commands[i].as_str(), policy) {
            return Err(HarnessError::ForbiddenToolAccess(commands[i].clone()));
        }
        i = i + 1;
    }
    if detect_loop(planned_edits) {
        return Err(
            HarnessError::ConfigParse(
                "loop guard triggered: planned change count exceeds threshold".to_owned(),
            ),
        );
    }
    Ok(())
}

/// Validates commands and edit count against the built-in policy.
pub fn validate(commands: &Vec<String>, planned_edits: u32) -> (r: Result<(), HarnessError>)
    ensures
        match r {
            Result::Ok(_) => (forall|j: int|
                0 <= j < commands@.len() ==> !default_forbids(#[trigger] commands@[j]@))
                && planned_edits < DEFAULT_EDIT_THRESHOLD,
            Result::Err(e) => match e {
                HarnessError::ForbiddenToolAccess(c) => exists|j: int|
                    0 <= j < commands@.len() && #[trigger] commands@[j]@ == c@ && default_forbids(
                        c@,
                    ),
                HarnessError::ConfigParse(m) => (forall|j: int|
                    0 <= j < commands@.len() ==> !default_forbids(#[trigger] commands@[j]@))
                    && planned_edits >= DEFAULT_EDIT_THRESHOLD && m@
                    == "loop guard triggered: planned change count exceeds threshold"@,
                _ => false,
            },
        },
{
    let policy = CommandPolicy::default();
    proof {
        assert(alias_views(policy.aliases@) =~= Seq::<(Seq<char>, Seq<char>)>::empty());
    }
    validate_commands(commands, planned_edits, &policy)
}


/// The views of the nonempty strings of a list, in order.
pub open spec fn nonempty_of(v: Seq<String>) -> Seq<Seq<char>>
    decreases v.len(),
{
    if v.len() == 0 {
        Seq::empty()
    } else if v[0]@.len() == 0 {
        nonempty_of(v.skip(1))
    } else {
        seq![v[0]@] + nonempty_of(v.skip(1))
    }
}

/// The alias table built by binding a pair list in order, later bindings
/// replacing earlier ones of the same name.
pub open spec fn canon_aliases(pairs: Seq<(String, String)>) -> Seq<(Seq<char>, Seq<char>)>
    decreases pairs.len(),
{
    if pairs.len() == 0 {
        Seq::empty()
    } else {
        upsert(canon_aliases(pairs.drop_last()), pairs.last().0@, pairs.last().1@)
    }
}

/// The forbidden rules a configuration yields: the built-in rules, then the
/// nonempty baseline forbidden commands, then the nonempty disabled tools.
pub open spec fn config_forbidden(config: Option<&crate::config::HarnessConfig>) -> Seq<
    Seq<char>,
> {
    let base: Seq<Seq<char>> = match config {
        Option::Some(c) => match c.tools {
            Option::Some(t) => match t.baseline {
                Option::Some(b) => nonempty_of(b.forbidden@),
                Option::None => Seq::empty(),
            },
            Option::None => Seq::empty(),
        },
        Option::None => Seq::empty(),
    };
    let disabled: Seq<Seq<char>> = match config {
        Option::Some(c) => match c.tools {
            Option::Some(t) => match t.deprecated {
                Option::Some(d) => nonempty_of(d.disabled@),
                Option::None => Seq::empty(),
            },
            Option::None => Seq::empty(),
        },
        Option::None => Seq::empty(),
    };
    default_forbidden_rules() + base + disabled
}

/// The alias table a configuration yields.
pub open spec fn config_aliases(config: Option<&crate::config::HarnessConfig>) -> Seq<
    (Seq<char>, Seq<char>),
> {
    match config {
        Option::Some(c) => match c.tools {
            Option::Some(t) => match t.aliases {
                Option::Some(a) => canon_aliases(a@),
                Option::None => Seq::empty(),
            },
            Option::None => Seq::empty(),
        },
        Option::None => Seq::empty(),
    }
}

fn push_nonempty(policy: &mut CommandPolicy, list: &Vec<String>)
    ensures
        views_of(final(policy).forbidden@) == views_of(old(policy).forbidden@) + nonempty_of(
            list@,
        ),
        final(policy).aliases@ == old(policy).aliases@,
{
    let n = list.len();
    let mut i: usize = 0;
    proof {
        assert(list@.skip(0) =~= list@);
        assert(views_of(policy.forbidden@) + Seq::<Seq<char>>::empty() =~= views_of(
            policy.forbidden@,
        ));
    }
    while i < n
        invariant
            i <= n,
            n == list@.len(),
            policy.aliases@ == old(policy).aliases@,
            views_of(policy.forbidden@) + nonempty_of(list@.skip(i as int)) =~= views_of(
                old(policy).forbidden@,
            ) + nonempty_of(list@),
        decreases n - i,
    {
        proof {
            assert(list@.skip(i as int)[0] == list@[i as int]);
            assert(list@.skip(i as int).skip(1) =~= list@.skip(i + 1));
        }
        if !list[i].as_str().is_empty() {
            let ghost before = views_of(policy.forbidden@);
            policy.push_forbidden(list[i].clone());
            assert(views_of(policy.forbidden@) =~= before.push(list@[i as int]@));
        }
        i = i + 1;
    }
    proof {
        assert(nonempty_of(list@.skip(n as int)) =~= Seq::<Seq<char>>::empty());
        assert(views_of(policy.forbidden@) + Seq::<Seq<char>>::empty() =~= views_of(
            policy.forbidden@,
        ));
    }
}

/// Builds the command policy a configuration describes: the built-in rules
/// extended with the configured forbidden commands and disabled tools, and
/// the configured alias table.
pub fn policy_from_config(config: Option<&crate::config::HarnessConfig>) -> (p: CommandPolicy)
    ensures
        views_of(p.forbidden@) == config_forbidden(config),
        alias_views(p.aliases@) == config_aliases(config),
{
    let mut policy = CommandPolicy::default();
    proof {
        assert(alias_views(policy.aliases@) =~= Seq::<(Seq<char>, Seq<char>)>::empty());
    }
    match config {
        Option::None => {
            proof {
                assert(views_of(policy.forbidden@) =~= config_forbidden(config));
            }
            policy
        },
        Option::Some(cfg) => {
            match &cfg.tools {
                Option::Some(tools) => {
                    match &tools.baseline {
                        Option::Some(baseline) => {
                            push_nonempty(&mut policy, &baseline.forbidden);
                        },
                        Option::None => {},
                    }
                    match &tools.deprecated {
                        Option::Some(deprecated) => {
                            push_nonempty(&mut policy, &deprecated.disabled);
                        },
                        Option::None => {},
                    }
                    match &tools.aliases {
                        Option::Some(aliases) => {
                            let n = aliases.len();
                            let mut i: usize = 0;
                            proof {
                                assert(canon_aliases(aliases@.take(0)) =~= Seq::<
                                    (Seq<char>, Seq<char>),
                                >::empty());
                            }
                            while i < n
                                invariant
                                    i <= n,
                                    n == aliases@.len(),
                                    views_of(policy.forbidden@) == config_forbidden(
                                        Some(cfg),
                                    ),
                                    alias_views(policy.aliases@) == canon_aliases(
                                        aliases@.take(i as int),
                                    ),
                                decreases n - i,
                            {
                                proof {
                                    assert(aliases@.take(i + 1).drop_last() =~= aliases@.take(
                                        i as int,
                                    ));
                                    assert(aliases@.take(i + 1).last() == aliases@[i as int]);
                                }
                                let pair = (aliases[i].0.clone(), aliases[i].1.clone());
                                policy.insert_alias(pair.0, pair.1);
                                i = i + 1;
                            }
                            proof {
                                assert(aliases@.take(n as int) =~= aliases@);
                            }
                        },
                        Option::None => {},
                    }
                },
                Option::None => {},
            }
            proof {
                assert(views_of(policy.forbidden@) =~= config_forbidden(config));
                assert(alias_views(policy.aliases@) =~= config_aliases(config));
            }
            policy
        },
    }
}

/// Validates a batch of planned commands and an edit count against the
/// policy a configuration describes.
pub fn validate_with_config(
    commands: &Vec<String>,
    planned_edits: u32,
    config: Option<&crate::config::HarnessConfig>,
) -> (r: Result<(), HarnessError>)
    ensures
        match r {
            Result::Ok(_) => (forall|j: int|
                0 <= j < commands@.len() ==> !forbids_spec(
                    config_forbidden(config),
                    config_aliases(config),
                    #[trigger] commands@[j]@,
                )) && planned_edits < DEFAULT_EDIT_THRESHOLD,
            Result::Err(e) => match e {
                HarnessError::ForbiddenToolAccess(c) => exists|j: int|
                    0 <= j < commands@.len() && #[trigger] commands@[j]@ == c@ && forbids_spec(
                        config_forbidden(config),
                        config_aliases(config),
                        c@,
                    ),
                HarnessError::ConfigParse(m) => (forall|j: int|
                    0 <= j < commands@.len() ==> !forbids_spec(
                        config_forbidden(config),
                        config_aliases(config),
                        #[trigger] commands@[j]@,
                    )) && planned_edits >= DEFAULT_EDIT_THRESHOLD && m@
                    == "loop guard triggered: planned change count exceeds threshold"@,
                _ => false,
            },
        },
{
    let policy = policy_from_config(config);
    validate_commands(commands, planned_edits, &policy)
}

} // verus!
