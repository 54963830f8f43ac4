//! Context interpolation: textual substitution of run-property, environment
//! and variable tokens in user-supplied strings.
//!
//! A token is `${env:NAME}`, `${var:NAME}`, `${run:id}` or
//! `${run:start-time}`. Substitution is literal, leftmost, non-overlapping
//! and non-recursive: the replacement text is never re-scanned.
use crate::pipeline::{Pipeline, PipelineView, Variable};
use crate::Binding;
use vstd::prelude::*;
use vstd::string::*;

verus! {

/// Leftmost, non-overlapping replacement of every occurrence of `pat` in `s`
/// by `to`, without re-scanning `to`. An empty pattern replaces nothing.
pub open spec fn spec_replace(s: Seq<char>, pat: Seq<char>, to: Seq<char>) -> Seq<char>
    decreases s.len(),
{
    if pat.len() == 0 || s.len() < pat.len() {
        s
    } else if s.subrange(0, pat.len() as int) == pat {
        to + spec_replace(s.skip(pat.len() as int), pat, to)
    } else {
        seq![s[0]] + spec_replace(s.skip(1), pat, to)
    }
}

/// Whether `pat` occurs as a contiguous subsequence of `s`.
pub open spec fn contains_seq(s: Seq<char>, pat: Seq<char>) -> bool {
    exists|i: int| 0 <= i && i + pat.len() <= s.len() && #[trigger] s.subrange(i, i + pat.len()) == pat
}

/// Whether `pat` occurs in `s` starting at position `i`.
fn match_at(s: &str, i: usize, pat: &str) -> (r: bool)
    requires
        i + pat@.len() <= s@.len(),
        s@.len() <= usize::MAX,
    ensures
        r == (s@.subrange(i as int, i + pat@.len()) == pat@),
{
    let m = pat.unicode_len();
    let mut j: usize = 0;
    while j < m
        invariant
            m == pat@.len(),
            j <= m,
            i + m <= s@.len(),
            s@.len() <= usize::MAX,
            forall|k: int| 0 <= k < j ==> s@[i + k] == pat@[k],
        decreases m - j,
    {
        if s.get_char(i + j) != pat.get_char(j) {
            proof {
                assert(s@.subrange(i as int, i + pat@.len())[j as int] == s@[i + j]);
            }
            return false;
        }
        j += 1;
    }
    proof {
        assert(s@.subrange(i as int, i + pat@.len()) =~= pat@);
    }
    true
}

/// Replaces every occurrence of `pat` in `s` by `to`, leftmost first,
/// never re-scanning the replacement text.
pub fn replace_str(s: &str, pat: &str, to: &str) -> (r: String)
    requires
        pat@.len() >= 1,
    ensures
        r@ == spec_replace(s@, pat@, to@),
{
    let n = s.unicode_len();
    let m = pat.unicode_len();
    let mut r = String::new();
    let mut i: usize = 0;
    proof {
        assert(s@.skip(0) =~= s@);
        assert(r@ + spec_replace(s@, pat@, to@) =~= spec_replace(s@, pat@, to@));
    }
    while i < n
        invariant
            n == s@.len(),
            m == pat@.len(),
            m >= 1,
            i <= n,
            spec_replace(s@, pat@, to@) == r@ + spec_replace(s@.skip(i as int), pat@, to@),
        decreases n - i,
    {
        let ghost rest = s@.skip(i as int);
        if m <= n - i && match_at(s, i, pat) {
            r.append(to);
            proof {
                assert(rest.subrange(0, m as int) =~= s@.subrange(i as int, i + m));
                assert(rest.skip(m as int) =~= s@.skip(i + m));
            }
            i += m;
        } else {
            let c = s.substring_char(i, i + 1);
            r.append(c);
            proof {
                if m <= n - i {
                    assert(rest.subrange(0, m as int) =~= s@.subrange(i as int, i + m));
                }
                assert(rest[0] == s@[i as int]);
                assert(rest.skip(1) =~= s@.skip(i + 1));
                assert(seq![s@[i as int]] + s@.skip(i + 1) =~= rest);
                assert(c@ =~= seq![s@[i as int]]);
            }
            i += 1;
        }
    }
    proof {
        assert(s@.skip(n as int) =~= Seq::<char>::empty());
        assert(s@.skip(i as int) == s@.skip(n as int));
        assert(r@ + Seq::<char>::empty() =~= r@);
    }
    r
}

/// The two characters that open every recognized token.
pub open spec fn token_open() -> Seq<char> {
    "${"@
}

/// The character that closes every recognized token.
pub open spec fn token_close() -> Seq<char> {
    "}"@
}

/// The prefix of an environment token.
pub open spec fn env_prefix() -> Seq<char> {
    "${env:"@
}

/// The prefix of a variable token.
pub open spec fn var_prefix() -> Seq<char> {
    "${var:"@
}

/// The fixed token standing for the run id.
pub open spec fn run_id_token() -> Seq<char> {
    "${run:id}"@
}

/// The fixed token standing for the run start time.
pub open spec fn run_start_token() -> Seq<char> {
    "${run:start-time}"@
}

/// The full token of a name under a prefix: `<prefix><name>}`.
pub open spec fn token_of(prefix: Seq<char>, name: Seq<char>) -> Seq<char> {
    prefix + name + token_close()
}

/// The lengths of the token literals, and that each starts with `${`.
pub proof fn lemma_token_lens()
    ensures
        token_open().len() == 2,
        token_close().len() == 1,
        env_prefix().len() == 6,
        var_prefix().len() == 6,
        run_id_token().len() == 9,
        run_start_token().len() == 17,
        env_prefix().subrange(0, 2) == token_open(),
        var_prefix().subrange(0, 2) == token_open(),
        run_id_token().subrange(0, 2) == token_open(),
        run_start_token().subrange(0, 2) == token_open(),
{
    reveal_strlit("${");
    reveal_strlit("}");
    reveal_strlit("${env:");
    reveal_strlit("${var:");
    reveal_strlit("${run:id}");
    reveal_strlit("${run:start-time}");
    assert(env_prefix().subrange(0, 2) =~= token_open());
    assert(var_prefix().subrange(0, 2) =~= token_open());
    assert(run_id_token().subrange(0, 2) =~= token_open());
    assert(run_start_token().subrange(0, 2) =~= token_open());
}

/// Builds `<prefix><name>}`, the token a named binding is addressed by.
fn make_token(prefix: &str, name: &str) -> (r: String)
    ensures
        r@ == token_of(prefix@, name@),
        r@.len() >= 1,
{
    let mut r = String::from_str(prefix);
    r.append(name);
    r.append("}");
    proof {
        reveal_strlit("}");
    }
    r
}

/// The model of a list of resolved bindings: (name, value) pairs.
pub open spec fn pairs_view(v: Seq<Binding>) -> Seq<(Seq<char>, Seq<char>)> {
    v.map(|i: int, b: Binding| (b.name@, b.value@))
}

/// One substitution sub-pass: for each pair in order, replace the token of
/// its name by its value in the accumulating buffer.
pub open spec fn spec_apply_pairs(
    s: Seq<char>,
    prefix: Seq<char>,
    pairs: Seq<(Seq<char>, Seq<char>)>,
) -> Seq<char>
    decreases pairs.len(),
{
    if pairs.len() == 0 {
        s
    } else {
        spec_apply_pairs(
            spec_replace(s, token_of(prefix, pairs[0].0), pairs[0].1),
            prefix,
            pairs.skip(1),
        )
    }
}

/// Runs the sub-pass over resolved bindings.
fn apply_bindings(txt: String, prefix: &str, pairs: &Vec<Binding>) -> (r: String)
    ensures
        r@ == spec_apply_pairs(txt@, prefix@, pairs_view(pairs@)),
{
    let ghost orig = txt@;
    let ghost all = pairs_view(pairs@);
    let mut cur = txt;
    let mut i: usize = 0;
    let n = pairs.len();
    proof {
        assert(all.skip(0) =~= all);
    }
    while i < n
        invariant
            n == pairs@.len(),
            all == pairs_view(pairs@),
            i <= n,
            spec_apply_pairs(orig, prefix@, all) == spec_apply_pairs(cur@, prefix@, all.skip(i as int)),
        decreases n - i,
    {
        let tok = make_token(prefix, pairs[i].name.as_str());
        let next = replace_str(cur.as_str(), tok.as_str(), pairs[i].value.as_str());
        proof {
            assert(all[i as int] == (pairs@[i as int].name@, pairs@[i as int].value@));
            assert(all.skip(i as int)[0] == all[i as int]);
            assert(all.skip(i as int).skip(1) =~= all.skip(i + 1));
        }
        cur = next;
        i += 1;
    }
    proof {
        assert(all.skip(n as int) =~= Seq::<(Seq<char>, Seq<char>)>::empty());
    }
    cur
}

/// Runs the fallback sub-pass over declared defaults.
fn apply_defaults(txt: String, prefix: &str, decls: &Vec<Variable>) -> (r: String)
    ensures
        r@ == spec_apply_pairs(txt@, prefix@, crate::pipeline::decls_view(decls@)),
{
    let ghost orig = txt@;
    let ghost all = crate::pipeline::decls_view(decls@);
    let mut cur = txt;
    let mut i: usize = 0;
    let n = decls.len();
    proof {
        assert(all.skip(0) =~= all);
    }
    while i < n
        invariant
            n == decls@.len(),
            all == crate::pipeline::decls_view(decls@),
            i <= n,
            spec_apply_pairs(orig, prefix@, all) == spec_apply_pairs(cur@, prefix@, all.skip(i as int)),
        decreases n - i,
    {
        let tok = make_token(prefix, decls[i].name.as_str());
        let next = replace_str(cur.as_str(), tok.as_str(), decls[i].default_value.as_str());
        proof {
            assert(all[i as int] == (decls@[i as int].name@, decls@[i as int].default_value@));
            assert(all.skip(i as int)[0] == all[i as int]);
            assert(all.skip(i as int).skip(1) =~= all.skip(i + 1));
        }
        cur = next;
        i += 1;
    }
    proof {
        assert(all.skip(n as int) =~= Seq::<(Seq<char>, Seq<char>)>::empty());
    }
    cur
}

/// The per-run interpolation context: the two run properties and the
/// resolved environment and variables, in declaration order.
#[derive(Debug)]
pub struct RunContext {
    pub run_id: String,
    pub run_start_time: String,
    pub env: Vec<Binding>,
    pub vars: Vec<Binding>,
}

/// Mathematical model of a `RunContext`.
pub struct RunContextView {
    pub run_id: Seq<char>,
    pub run_start_time: Seq<char>,
    pub env: Seq<(Seq<char>, Seq<char>)>,
    pub vars: Seq<(Seq<char>, Seq<char>)>,
}

impl View for RunContext {
    type V = RunContextView;

    open spec fn view(&self) -> RunContextView {
        RunContextView {
            run_id: self.run_id@,
            run_start_time: self.run_start_time@,
            env: pairs_view(self.env@),
            vars: pairs_view(self.vars@),
        }
    }
}

/// The run-properties pass: the run id token, then the start-time token.
pub open spec fn spec_apply_run_properties(s: Seq<char>, id: Seq<char>, start: Seq<char>) -> Seq<char> {
    spec_replace(spec_replace(s, run_id_token(), id), run_start_token(), start)
}

/// The environment pass: resolved values first, declared defaults second.
pub open spec fn spec_apply_environment(s: Seq<char>, ctx: RunContextView, pip: PipelineView) -> Seq<char> {
    spec_apply_pairs(spec_apply_pairs(s, env_prefix(), ctx.env), env_prefix(), pip.environment)
}

/// The variables pass: resolved values first, declared defaults second.
pub open spec fn spec_apply_variables(s: Seq<char>, ctx: RunContextView, pip: PipelineView) -> Seq<char> {
    spec_apply_pairs(spec_apply_pairs(s, var_prefix(), ctx.vars), var_prefix(), pip.variables)
}

/// Full interpolation: run properties, then environment, then variables.
/// The pass order is load-bearing and must not be changed.
pub open spec fn spec_interpolate(s: Seq<char>, ctx: RunContextView, pip: PipelineView) -> Seq<char> {
    spec_apply_variables(
        spec_apply_environment(spec_apply_run_properties(s, ctx.run_id, ctx.run_start_time), ctx, pip),
        ctx,
        pip,
    )
}

impl RunContext {
    /// Replaces the two fixed run-property tokens.
    pub fn apply_run_properties(&self, txt: &str) -> (r: String)
        ensures
            r@ == spec_apply_run_properties(txt@, self.run_id@, self.run_start_time@),
    {
        proof {
            lemma_token_lens();
        }
        let a = replace_str(txt, "${run:id}", self.run_id.as_str());
        replace_str(a.as_str(), "${run:start-time}", self.run_start_time.as_str())
    }

    /// The environment pass over a string.
    pub fn apply_environment(&self, pip: &Pipeline, txt: String) -> (r: String)
        ensures
            r@ == spec_apply_environment(txt@, self@, pip@),
    {
        let a = apply_bindings(txt, "${env:", &self.env);
        apply_defaults(a, "${env:", &pip.environment)
    }

    /// The variables pass over a string.
    pub fn apply_variables(&self, pip: &Pipeline, txt: String) -> (r: String)
        ensures
            r@ == spec_apply_variables(txt@, self@, pip@),
    {
        let a = apply_bindings(txt, "${var:", &self.vars);
        apply_defaults(a, "${var:", &pip.variables)
    }

    /// Interpolates one user-supplied string against this context.
    pub fn apply_context(&self, pip: &Pipeline, txt: &str) -> (r: String)
        ensures
            r@ == spec_interpolate(txt@, self@, pip@),
    {
        let a = self.apply_run_properties(txt);
        let b = self.apply_environment(pip, a);
        self.apply_variables(pip, b)
    }
}

/// Replacing a pattern that does not occur anywhere leaves the string as is.
pub proof fn lemma_replace_none(s: Seq<char>, pat: Seq<char>, to: Seq<char>)
    requires
        !contains_seq(s, pat),
    ensures
        spec_replace(s, pat, to) == s,
    decreases s.len(),
{
    if pat.len() == 0 {
        assert(s.subrange(0, 0 + pat.len() as int) =~= pat);
        assert(false);
    } else if s.len() < pat.len() {
    } else if s.subrange(0, pat.len() as int) == pat {
        assert(s.subrange(0, 0 + pat.len() as int) == pat);
        assert(false);
    } else {
        assert forall|i: int|
            0 <= i && i + pat.len() <= s.skip(1).len() implies #[trigger] s.skip(1).subrange(
            i,
            i + pat.len(),
        ) != pat by {
            assert(s.skip(1).subrange(i, i + pat.len()) =~= s.subrange(i + 1, (i + 1) + pat.len()));
        }
        lemma_replace_none(s.skip(1), pat, to);
        assert(seq![s[0]] + s.skip(1) =~= s);
    }
}

/// A string containing a pattern contains every prefix of that pattern.
pub proof fn lemma_contains_prefix(s: Seq<char>, pat: Seq<char>, pre: Seq<char>)
    requires
        contains_seq(s, pat),
        pre.len() <= pat.len(),
        pre == pat.subrange(0, pre.len() as int),
    ensures
        contains_seq(s, pre),
{
    let i = choose|i: int|
        0 <= i && i + pat.len() <= s.len() && #[trigger] s.subrange(i, i + pat.len()) == pat;
    assert(s.subrange(i, i + pre.len()) =~= pat.subrange(0, pre.len() as int));
}

/// A string without `${` contains no token built from a `${`-prefix.
proof fn lemma_no_open_no_token(s: Seq<char>, prefix: Seq<char>, name: Seq<char>)
    requires
        !contains_seq(s, token_open()),
        prefix.len() >= 2,
        prefix.subrange(0, 2) == token_open(),
    ensures
        !contains_seq(s, token_of(prefix, name)),
{
    lemma_token_lens();
    if contains_seq(s, token_of(prefix, name)) {
        assert(token_of(prefix, name).subrange(0, 2) =~= prefix.subrange(0, 2));
        lemma_contains_prefix(s, token_of(prefix, name), token_open());
    }
}

/// A sub-pass over a string without `${` changes nothing.
proof fn lemma_apply_pairs_id(s: Seq<char>, prefix: Seq<char>, pairs: Seq<(Seq<char>, Seq<char>)>)
    requires
        !contains_seq(s, token_open()),
        prefix.len() >= 2,
        prefix.subrange(0, 2) == token_open(),
    ensures
        spec_apply_pairs(s, prefix, pairs) == s,
    decreases pairs.len(),
{
    if pairs.len() > 0 {
        lemma_no_open_no_token(s, prefix, pairs[0].0);
        lemma_replace_none(s, token_of(prefix, pairs[0].0), pairs[0].1);
        lemma_apply_pairs_id(s, prefix, pairs.skip(1));
    }
}

/// Interpolating a string that contains no `${` is a fixed point: no token
/// of any recognized form can occur in it, so every pass leaves it as is.
pub proof fn lemma_interpolate_fixed_point(s: Seq<char>, ctx: RunContextView, pip: PipelineView)
    requires
        !contains_seq(s, token_open()),
    ensures
        spec_interpolate(s, ctx, pip) == s,
{
    lemma_token_lens();
    if contains_seq(s, run_id_token()) {
        lemma_contains_prefix(s, run_id_token(), token_open());
    }
    lemma_replace_none(s, run_id_token(), ctx.run_id);
    if contains_seq(s, run_start_token()) {
        lemma_contains_prefix(s, run_start_token(), token_open());
    }
    lemma_replace_none(s, run_start_token(), ctx.run_start_time);
    lemma_apply_pairs_id(s, env_prefix(), ctx.env);
    lemma_apply_pairs_id(s, env_prefix(), pip.environment);
    lemma_apply_pairs_id(s, var_prefix(), ctx.vars);
    lemma_apply_pairs_id(s, var_prefix(), pip.variables);
}

/// A usable token name: nonempty and free of the delimiter characters.
pub open spec fn clean_name(k: Seq<char>) -> bool {
    k.len() > 0 && forall|i: int|
        0 <= i < k.len() ==> #[trigger] k[i] != '$' && k[i] != '{' && k[i] != '}'
}

/// The facts about a token prefix that the occurrence arguments need.
pub open spec fn dollar_prefix(p: Seq<char>) -> bool {
    p.len() >= 3 && p[0] == '$' && (forall|i: int| 1 <= i < p.len() ==> #[trigger] p[i] != '$')
}

/// The two token prefixes open with the only dollar of a clean token.
proof fn lemma_prefix_facts()
    ensures
        dollar_prefix(env_prefix()),
        dollar_prefix(var_prefix()),
        env_prefix()[2] == 'e',
        var_prefix()[2] == 'v',
        run_id_token().len() >= 3,
        run_id_token()[0] == '$',
        run_id_token()[2] == 'r',
        run_start_token().len() >= 3,
        run_start_token()[0] == '$',
        run_start_token()[2] == 'r',
        token_close() == seq!['}'],
{
    reveal_strlit("${env:");
    reveal_strlit("${var:");
    reveal_strlit("${run:id}");
    reveal_strlit("${run:start-time}");
    reveal_strlit("}");
    assert(token_close() =~= seq!['}']);
}

/// In a clean token the dollar stands at the front and nowhere else.
proof fn lemma_token_dollar_at_zero(prefix: Seq<char>, k: Seq<char>)
    requires
        dollar_prefix(prefix),
        clean_name(k),
    ensures
        token_of(prefix, k)[0] == '$',
        forall|i: int|
            1 <= i < token_of(prefix, k).len() ==> #[trigger] token_of(prefix, k)[i] != '$',
{
    lemma_prefix_facts();
    let t = token_of(prefix, k);
    assert forall|i: int| 1 <= i < t.len() implies #[trigger] t[i] != '$' by {
        if i < prefix.len() {
            assert(t[i] == prefix[i]);
        } else if i < prefix.len() + k.len() {
            assert(t[i] == k[i - prefix.len()]);
        } else {
            assert(t[i] == token_close()[i - prefix.len() - k.len()]);
        }
    }
}

/// A dollar-opened pattern that differs from a clean token at some index
/// cannot occur in it: any occurrence would have to start at the front.
proof fn lemma_no_dollar_pattern(t: Seq<char>, pat: Seq<char>, j: int)
    requires
        t.len() >= 1,
        t[0] == '$',
        forall|i: int| 1 <= i < t.len() ==> #[trigger] t[i] != '$',
        pat.len() >= 1,
        pat[0] == '$',
        0 <= j < pat.len(),
        j < t.len() ==> pat[j] != t[j],
    ensures
        !contains_seq(t, pat),
{
    if contains_seq(t, pat) {
        let i = choose|i: int|
            0 <= i && i + pat.len() <= t.len() && #[trigger] t.subrange(i, i + pat.len()) == pat;
        assert(t.subrange(i, i + pat.len())[0] == t[i]);
        assert(t[i] == '$');
        assert(i == 0);
        assert(t.subrange(0, pat.len() as int)[j] == t[j]);
    }
}

/// A token never contains the token of a different name under the same
/// prefix: the occurrence would have to align at the front, and a clean
/// name admits no shorter name closed early.
proof fn lemma_token_not_in_token(prefix: Seq<char>, k: Seq<char>, k2: Seq<char>)
    requires
        dollar_prefix(prefix),
        clean_name(k),
        k2 != k,
    ensures
        !contains_seq(token_of(prefix, k), token_of(prefix, k2)),
{
    lemma_prefix_facts();
    lemma_token_dollar_at_zero(prefix, k);
    let t = token_of(prefix, k);
    let pat = token_of(prefix, k2);
    if contains_seq(t, pat) {
        let i = choose|i: int|
            0 <= i && i + pat.len() <= t.len() && #[trigger] t.subrange(i, i + pat.len()) == pat;
        assert(t.subrange(i, i + pat.len())[0] == t[i]);
        assert(pat[0] == prefix[0]);
        assert(i == 0);
        assert(k2.len() <= k.len());
        if k2.len() == k.len() {
            assert forall|m: int| 0 <= m < k.len() implies k2[m] == k[m] by {
                assert(t.subrange(0, pat.len() as int)[prefix.len() + m] == t[prefix.len() + m]);
                assert(pat[prefix.len() + m] == k2[m]);
                assert(t[prefix.len() + m] == k[m]);
            }
            assert(k2 =~= k);
        } else {
            let b: int = prefix.len() + k2.len() as int;
            assert(t.subrange(0, pat.len() as int)[b] == t[b]);
            assert(pat[b] == token_close()[0]);
            assert(t[b] == k[k2.len() as int]);
            assert(k[k2.len() as int] == '}');
        }
    }
}

/// The sub-pass leaves a clean token alone when no pair bears its name.
proof fn lemma_apply_pairs_other(
    prefix: Seq<char>,
    k: Seq<char>,
    pairs: Seq<(Seq<char>, Seq<char>)>,
)
    requires
        dollar_prefix(prefix),
        clean_name(k),
        crate::builder::spec_lookup(pairs, k) is None,
    ensures
        spec_apply_pairs(token_of(prefix, k), prefix, pairs) == token_of(prefix, k),
    decreases pairs.len(),
{
    if pairs.len() > 0 {
        lemma_token_not_in_token(prefix, k, pairs[0].0);
        lemma_replace_none(token_of(prefix, k), token_of(prefix, pairs[0].0), pairs[0].1);
        lemma_apply_pairs_other(prefix, k, pairs.skip(1));
    }
}

/// The sub-pass turns a clean token into the value of the first pair that
/// bears its name, when that value re-opens no token.
proof fn lemma_apply_pairs_hit(
    prefix: Seq<char>,
    k: Seq<char>,
    pairs: Seq<(Seq<char>, Seq<char>)>,
)
    requires
        dollar_prefix(prefix),
        prefix.subrange(0, 2) == token_open(),
        clean_name(k),
        crate::builder::spec_lookup(pairs, k) is Some,
        !contains_seq(crate::builder::spec_lookup(pairs, k)->0, token_open()),
    ensures
        spec_apply_pairs(token_of(prefix, k), prefix, pairs) == crate::builder::spec_lookup(
            pairs,
            k,
        )->0,
    decreases pairs.len(),
{
    lemma_token_lens();
    let t = token_of(prefix, k);
    if pairs[0].0 == k {
        let v = pairs[0].1;
        assert(t.subrange(0, t.len() as int) =~= t);
        assert(t.skip(t.len() as int) =~= Seq::<char>::empty());
        assert(spec_replace(t, t, v) == v + spec_replace(Seq::<char>::empty(), t, v));
        assert(v + Seq::<char>::empty() =~= v);
        lemma_apply_pairs_id(v, prefix, pairs.skip(1));
    } else {
        lemma_token_not_in_token(prefix, k, pairs[0].0);
        lemma_replace_none(t, token_of(prefix, pairs[0].0), pairs[0].1);
        lemma_apply_pairs_hit(prefix, k, pairs.skip(1));
    }
}

/// The run-properties pass leaves every clean environment or variable
/// token alone.
proof fn lemma_props_skip_token(prefix: Seq<char>, k: Seq<char>, id: Seq<char>, start: Seq<char>)
    requires
        dollar_prefix(prefix),
        prefix[2] != 'r',
        clean_name(k),
    ensures
        spec_apply_run_properties(token_of(prefix, k), id, start) == token_of(prefix, k),
{
    lemma_prefix_facts();
    lemma_token_dollar_at_zero(prefix, k);
    let t = token_of(prefix, k);
    assert(t[2] == prefix[2]);
    lemma_no_dollar_pattern(t, run_id_token(), 2);
    lemma_no_dollar_pattern(t, run_start_token(), 2);
    lemma_replace_none(t, run_id_token(), id);
    lemma_replace_none(t, run_start_token(), start);
}

/// An environment token of a name bound in the resolved environment
/// interpolates to the first value bound to that name, provided the value
/// re-opens no token. This is the replacement direction of the token
/// resolution rule, on the token itself.
pub proof fn lemma_env_token_resolved(k: Seq<char>, ctx: RunContextView, pip: PipelineView)
    requires
        clean_name(k),
        crate::builder::spec_lookup(ctx.env, k) is Some,
        !contains_seq(crate::builder::spec_lookup(ctx.env, k)->0, token_open()),
    ensures
        spec_interpolate(token_of(env_prefix(), k), ctx, pip) == crate::builder::spec_lookup(
            ctx.env,
            k,
        )->0,
{
    lemma_prefix_facts();
    lemma_token_lens();
    let t = token_of(env_prefix(), k);
    let v = crate::builder::spec_lookup(ctx.env, k)->0;
    lemma_props_skip_token(env_prefix(), k, ctx.run_id, ctx.run_start_time);
    lemma_apply_pairs_hit(env_prefix(), k, ctx.env);
    lemma_apply_pairs_id(v, env_prefix(), pip.environment);
    lemma_apply_pairs_id(v, var_prefix(), ctx.vars);
    lemma_apply_pairs_id(v, var_prefix(), pip.variables);
}

/// An environment token of a name that neither the resolved environment
/// nor the pipeline's declarations bind stays verbatim through the whole
/// interpolation. This is the other direction of the token resolution
/// rule: unresolved tokens appear verbatim.
pub proof fn lemma_env_token_unresolved(k: Seq<char>, ctx: RunContextView, pip: PipelineView)
    requires
        clean_name(k),
        crate::builder::spec_lookup(ctx.env, k) is None,
        crate::builder::spec_lookup(pip.environment, k) is None,
    ensures
        spec_interpolate(token_of(env_prefix(), k), ctx, pip) == token_of(env_prefix(), k),
{
    lemma_prefix_facts();
    lemma_token_dollar_at_zero(env_prefix(), k);
    let t = token_of(env_prefix(), k);
    lemma_props_skip_token(env_prefix(), k, ctx.run_id, ctx.run_start_time);
    lemma_apply_pairs_other(env_prefix(), k, ctx.env);
    lemma_apply_pairs_other(env_prefix(), k, pip.environment);
    // variable tokens differ from environment tokens at the third letter
    assert forall|k2: Seq<char>| !contains_seq(t, #[trigger] token_of(var_prefix(), k2)) by {
        assert(token_of(var_prefix(), k2)[0] == var_prefix()[0]);
        assert(token_of(var_prefix(), k2)[2] == var_prefix()[2]);
        assert(t[2] == env_prefix()[2]);
        lemma_no_dollar_pattern(t, token_of(var_prefix(), k2), 2);
    }
    lemma_apply_pairs_absent(t, var_prefix(), ctx.vars);
    lemma_apply_pairs_absent(t, var_prefix(), pip.variables);
}

/// A pass none of whose own tokens occurs in the text leaves it alone.
proof fn lemma_apply_pairs_absent(
    t: Seq<char>,
    prefix: Seq<char>,
    pairs: Seq<(Seq<char>, Seq<char>)>,
)
    requires
        (forall|i: int|
            0 <= i < pairs.len() ==> !contains_seq(t, token_of(prefix, (#[trigger] pairs[i]).0))),
    ensures
        spec_apply_pairs(t, prefix, pairs) == t,
    decreases pairs.len(),
{
    if pairs.len() > 0 {
        lemma_replace_none(t, token_of(prefix, pairs[0].0), pairs[0].1);
        assert forall|i: int|
            0 <= i < pairs.skip(1).len() implies !contains_seq(
            t,
            token_of(prefix, (#[trigger] pairs.skip(1)[i]).0),
        ) by {
            assert(pairs.skip(1)[i] == pairs[i + 1]);
        }
        lemma_apply_pairs_absent(t, prefix, pairs.skip(1));
    }
}

/// Interpolating a string in which no recognized token occurs — neither
/// run-property token nor the token of any resolved or declared name — is
/// a fixed point, even when the string holds other `${` text that no pass
/// recognizes.
pub proof fn lemma_interpolate_fixed_point_general(
    s: Seq<char>,
    ctx: RunContextView,
    pip: PipelineView,
)
    requires
        !contains_seq(s, run_id_token()),
        !contains_seq(s, run_start_token()),
        (forall|i: int|
            0 <= i < ctx.env.len() ==> !contains_seq(
                s,
                token_of(env_prefix(), (#[trigger] ctx.env[i]).0),
            )),
        (forall|i: int|
            0 <= i < pip.environment.len() ==> !contains_seq(
                s,
                token_of(env_prefix(), (#[trigger] pip.environment[i]).0),
            )),
        (forall|i: int|
            0 <= i < ctx.vars.len() ==> !contains_seq(
                s,
                token_of(var_prefix(), (#[trigger] ctx.vars[i]).0),
            )),
        (forall|i: int|
            0 <= i < pip.variables.len() ==> !contains_seq(
                s,
                token_of(var_prefix(), (#[trigger] pip.variables[i]).0),
            )),
    ensures
        spec_interpolate(s, ctx, pip) == s,
{
    lemma_replace_none(s, run_id_token(), ctx.run_id);
    lemma_replace_none(s, run_start_token(), ctx.run_start_time);
    lemma_apply_pairs_absent(s, env_prefix(), ctx.env);
    lemma_apply_pairs_absent(s, env_prefix(), pip.environment);
    lemma_apply_pairs_absent(s, var_prefix(), ctx.vars);
    lemma_apply_pairs_absent(s, var_prefix(), pip.variables);
}
/// A variable token of a name bound in the resolved variables
/// interpolates to the first value bound to that name, provided the value
/// re-opens no token.
pub proof fn lemma_var_token_resolved(k: Seq<char>, ctx: RunContextView, pip: PipelineView)
    requires
        clean_name(k),
        crate::builder::spec_lookup(ctx.vars, k) is Some,
        !contains_seq(crate::builder::spec_lookup(ctx.vars, k)->0, token_open()),
    ensures
        spec_interpolate(token_of(var_prefix(), k), ctx, pip) == crate::builder::spec_lookup(
            ctx.vars,
            k,
        )->0,
{
    lemma_prefix_facts();
    lemma_token_lens();
    lemma_token_dollar_at_zero(var_prefix(), k);
    let t = token_of(var_prefix(), k);
    lemma_props_skip_token(var_prefix(), k, ctx.run_id, ctx.run_start_time);
    assert forall|k2: Seq<char>| !contains_seq(t, #[trigger] token_of(env_prefix(), k2)) by {
        assert(token_of(env_prefix(), k2)[0] == env_prefix()[0]);
        assert(token_of(env_prefix(), k2)[2] == env_prefix()[2]);
        assert(t[2] == var_prefix()[2]);
        lemma_no_dollar_pattern(t, token_of(env_prefix(), k2), 2);
    }
    lemma_apply_pairs_absent(t, env_prefix(), ctx.env);
    lemma_apply_pairs_absent(t, env_prefix(), pip.environment);
    lemma_apply_pairs_hit(var_prefix(), k, ctx.vars);
    lemma_apply_pairs_id(crate::builder::spec_lookup(ctx.vars, k)->0, var_prefix(), pip.variables);
}

/// A variable token of a name that neither the resolved variables nor the
/// pipeline's declarations bind stays verbatim.
pub proof fn lemma_var_token_unresolved(k: Seq<char>, ctx: RunContextView, pip: PipelineView)
    requires
        clean_name(k),
        crate::builder::spec_lookup(ctx.vars, k) is None,
        crate::builder::spec_lookup(pip.variables, k) is None,
    ensures
        spec_interpolate(token_of(var_prefix(), k), ctx, pip) == token_of(var_prefix(), k),
{
    lemma_prefix_facts();
    lemma_token_dollar_at_zero(var_prefix(), k);
    let t = token_of(var_prefix(), k);
    lemma_props_skip_token(var_prefix(), k, ctx.run_id, ctx.run_start_time);
    assert forall|k2: Seq<char>| !contains_seq(t, #[trigger] token_of(env_prefix(), k2)) by {
        assert(token_of(env_prefix(), k2)[0] == env_prefix()[0]);
        assert(token_of(env_prefix(), k2)[2] == env_prefix()[2]);
        assert(t[2] == var_prefix()[2]);
        lemma_no_dollar_pattern(t, token_of(env_prefix(), k2), 2);
    }
    lemma_apply_pairs_absent(t, env_prefix(), ctx.env);
    lemma_apply_pairs_absent(t, env_prefix(), pip.environment);
    lemma_apply_pairs_other(var_prefix(), k, ctx.vars);
    lemma_apply_pairs_other(var_prefix(), k, pip.variables);
}

/// The run id token interpolates to the run id, provided the id re-opens
/// no token; the two run properties resolve from the context alone.
pub proof fn lemma_run_id_token_resolved(ctx: RunContextView, pip: PipelineView)
    requires
        !contains_seq(ctx.run_id, token_open()),
    ensures
        spec_interpolate(run_id_token(), ctx, pip) == ctx.run_id,
{
    lemma_token_lens();
    let t = run_id_token();
    assert(t.subrange(0, t.len() as int) =~= t);
    assert(t.skip(t.len() as int) =~= Seq::<char>::empty());
    assert(spec_replace(t, t, ctx.run_id) == ctx.run_id + spec_replace(
        Seq::<char>::empty(),
        t,
        ctx.run_id,
    ));
    assert(ctx.run_id + Seq::<char>::empty() =~= ctx.run_id);
    if contains_seq(ctx.run_id, run_start_token()) {
        lemma_contains_prefix(ctx.run_id, run_start_token(), token_open());
    }
    lemma_replace_none(ctx.run_id, run_start_token(), ctx.run_start_time);
    lemma_apply_pairs_id(ctx.run_id, env_prefix(), ctx.env);
    lemma_apply_pairs_id(ctx.run_id, env_prefix(), pip.environment);
    lemma_apply_pairs_id(ctx.run_id, var_prefix(), ctx.vars);
    lemma_apply_pairs_id(ctx.run_id, var_prefix(), pip.variables);
}

/// No dollar sign anywhere in the text.
pub open spec fn no_dollar(s: Seq<char>) -> bool {
    forall|i: int| 0 <= i < s.len() ==> #[trigger] s[i] != '$'
}

/// No closing brace anywhere in the text.
pub open spec fn no_close(s: Seq<char>) -> bool {
    forall|i: int| 0 <= i < s.len() ==> #[trigger] s[i] != '}'
}

/// A dollar-opened pattern cannot occur in dollar-free text.
proof fn lemma_no_dollar_no_match(t: Seq<char>, pat: Seq<char>)
    requires
        no_dollar(t),
        pat.len() >= 1,
        pat[0] == '$',
    ensures
        !contains_seq(t, pat),
{
    if contains_seq(t, pat) {
        let i = choose|i: int|
            0 <= i && i + pat.len() <= t.len() && #[trigger] t.subrange(i, i + pat.len()) == pat;
        assert(t.subrange(i, i + pat.len())[0] == t[i]);
    }
}

/// A pass leaves dollar-free text alone.
proof fn lemma_apply_pairs_no_dollar(
    t: Seq<char>,
    prefix: Seq<char>,
    pairs: Seq<(Seq<char>, Seq<char>)>,
)
    requires
        no_dollar(t),
        dollar_prefix(prefix),
    ensures
        spec_apply_pairs(t, prefix, pairs) == t,
    decreases pairs.len(),
{
    if pairs.len() > 0 {
        assert(token_of(prefix, pairs[0].0)[0] == prefix[0]);
        lemma_no_dollar_no_match(t, token_of(prefix, pairs[0].0));
        lemma_replace_none(t, token_of(prefix, pairs[0].0), pairs[0].1);
        lemma_apply_pairs_no_dollar(t, prefix, pairs.skip(1));
    }
}

/// In text whose only dollar stands at `p`, a dollar-opened pattern can
/// occur only at `p`.
proof fn lemma_single_dollar_occurrence(t: Seq<char>, pat: Seq<char>, p: int)
    requires
        0 <= p < t.len(),
        t[p] == '$',
        (forall|i: int| 0 <= i < t.len() && i != p ==> #[trigger] t[i] != '$'),
        pat.len() >= 1,
        pat[0] == '$',
        contains_seq(t, pat),
    ensures
        p + pat.len() <= t.len(),
        t.subrange(p, p + pat.len()) == pat,
{
    let i = choose|i: int|
        0 <= i && i + pat.len() <= t.len() && #[trigger] t.subrange(i, i + pat.len()) == pat;
    assert(t.subrange(i, i + pat.len())[0] == t[i]);
    assert(i == p);
}

/// Replacing a pattern that occurs exactly once splices the replacement in
/// at that one occurrence.
proof fn lemma_replace_single(t: Seq<char>, pat: Seq<char>, to: Seq<char>, p: int)
    requires
        0 <= p,
        p + pat.len() <= t.len(),
        t.subrange(p, p + pat.len()) == pat,
        pat.len() >= 1,
        pat[0] == '$',
        t[p] == '$',
        (forall|i: int| 0 <= i < t.len() && i != p ==> #[trigger] t[i] != '$'),
    ensures
        spec_replace(t, pat, to) == t.take(p) + to + t.skip(p + pat.len()),
    decreases p,
{
    if p == 0 {
        let rest = t.skip(pat.len() as int);
        assert forall|i: int| 0 <= i < rest.len() implies #[trigger] rest[i] != '$' by {
            assert(rest[i] == t[i + pat.len()]);
        }
        lemma_no_dollar_no_match(rest, pat);
        lemma_replace_none(rest, pat, to);
        assert(t.take(0) =~= Seq::<char>::empty());
        assert(t.take(0) + to + t.skip(pat.len() as int) =~= to + rest);
    } else {
        // no match at the front: the pattern opens with the dollar at p > 0
        assert(t[0] != '$');
        if t.len() >= pat.len() && t.subrange(0, pat.len() as int) == pat {
            assert(t.subrange(0, pat.len() as int)[0] == t[0]);
            assert(false);
        }
        let t2 = t.skip(1);
        assert(t2[p - 1] == t[p as int]);
        assert forall|i: int| 0 <= i < t2.len() && i != p - 1 implies #[trigger] t2[i] != '$' by {
            assert(t2[i] == t[i + 1]);
        }
        assert(t2.subrange(p - 1, p - 1 + pat.len()) =~= t.subrange(p, p + pat.len()));
        lemma_replace_single(t2, pat, to, p - 1);
        assert(t2.take(p - 1) =~= t.take(p).skip(1));
        assert(t2.skip(p - 1 + pat.len()) =~= t.skip(p + pat.len()));
        assert(seq![t[0]] + (t2.take(p - 1) + to + t2.skip(p - 1 + pat.len())) =~= t.take(p) + to
            + t.skip(p + pat.len()));
    }
}

/// The shape facts of a token embedded in dollar-free surroundings: its
/// dollar is the only one in the whole text.
proof fn lemma_embedded_token_dollars(pre: Seq<char>, prefix: Seq<char>, k: Seq<char>, suf: Seq<char>)
    requires
        no_dollar(pre),
        no_dollar(suf),
        dollar_prefix(prefix),
        clean_name(k),
    ensures
        ({
            let t = pre + token_of(prefix, k) + suf;
            &&& t.len() == pre.len() + prefix.len() + k.len() + 1 + suf.len()
            &&& t[pre.len() as int] == '$'
            &&& (forall|i: int|
                0 <= i < t.len() && i != pre.len() ==> #[trigger] t[i] != '$')
        }),
{
    lemma_token_lens();
    let tok = token_of(prefix, k);
    let t = pre + tok + suf;
    lemma_token_dollar_at_zero(prefix, k);
    assert(t[pre.len() as int] == tok[0]);
    assert forall|i: int| 0 <= i < t.len() && i != pre.len() implies #[trigger] t[i] != '$' by {
        if i < pre.len() {
            assert(t[i] == pre[i]);
        } else if i < pre.len() + tok.len() {
            assert(t[i] == tok[i - pre.len()]);
        } else {
            assert(t[i] == suf[i - pre.len() - tok.len()]);
        }
    }
}

/// In a token embedded in dollar-free, brace-free surroundings, the only
/// same-prefix token that can match at the token's position is the token
/// itself: a shorter name would close inside the clean name, a longer one
/// would need a closing brace in the tail.
proof fn lemma_embedded_match_is_same(
    pre: Seq<char>,
    prefix: Seq<char>,
    k: Seq<char>,
    suf: Seq<char>,
    k2: Seq<char>,
)
    requires
        no_dollar(pre),
        no_dollar(suf),
        no_close(suf),
        dollar_prefix(prefix),
        clean_name(k),
        ({
            let t = pre + token_of(prefix, k) + suf;
            let pat = token_of(prefix, k2);
            pre.len() + pat.len() <= t.len() && t.subrange(
                pre.len() as int,
                pre.len() + pat.len() as int,
            ) == pat
        }),
    ensures
        k2 == k,
{
    lemma_token_lens();
    lemma_prefix_facts();
    let t = pre + token_of(prefix, k) + suf;
    let tok = token_of(prefix, k);
    let pat = token_of(prefix, k2);
    let p = pre.len() as int;
    let m = t.subrange(p, p + pat.len());
    assert(pat[prefix.len() + k2.len() as int] == token_close()[0]);
    if k2.len() < k.len() {
        assert(m[prefix.len() + k2.len() as int] == t[p + prefix.len() + k2.len()]);
        assert(t[p + prefix.len() + k2.len()] == tok[prefix.len() + k2.len() as int]);
        assert(tok[prefix.len() + k2.len() as int] == k[k2.len() as int]);
        assert(false);
    } else if k2.len() == k.len() {
        assert forall|j: int| 0 <= j < k.len() implies k2[j] == k[j] by {
            assert(m[prefix.len() + j] == t[p + prefix.len() + j]);
            assert(t[p + prefix.len() + j] == tok[prefix.len() + j]);
            assert(pat[prefix.len() + j] == k2[j]);
            assert(tok[prefix.len() + j] == k[j]);
        }
        assert(k2 =~= k);
    } else {
        // the pattern's closing brace would land inside the brace-free tail
        let c = p + prefix.len() + k2.len();
        assert(m[prefix.len() + k2.len() as int] == t[c]);
        assert(c >= pre.len() + tok.len());
        assert(t[c] == suf[c - pre.len() - tok.len()]);
        assert(false);
    }
}

/// One sub-pass over a token embedded in clean surroundings: the first
/// pair bearing the token's name splices its value in; pairs with other
/// names leave the text alone.
proof fn lemma_apply_pairs_embedded(
    pre: Seq<char>,
    prefix: Seq<char>,
    k: Seq<char>,
    suf: Seq<char>,
    pairs: Seq<(Seq<char>, Seq<char>)>,
)
    requires
        no_dollar(pre),
        no_dollar(suf),
        no_close(suf),
        dollar_prefix(prefix),
        clean_name(k),
        (crate::builder::spec_lookup(pairs, k) matches Option::Some(v) ==> no_dollar(v)),
    ensures
        spec_apply_pairs(pre + token_of(prefix, k) + suf, prefix, pairs) == (
        match crate::builder::spec_lookup(pairs, k) {
            Option::Some(v) => pre + v + suf,
            Option::None => pre + token_of(prefix, k) + suf,
        }),
    decreases pairs.len(),
{
    lemma_token_lens();
    lemma_embedded_token_dollars(pre, prefix, k, suf);
    let t = pre + token_of(prefix, k) + suf;
    let tok = token_of(prefix, k);
    let p = pre.len() as int;
    if pairs.len() == 0 {
    } else {
        let k2 = pairs[0].0;
        let pat = token_of(prefix, k2);
        assert(pat[0] == prefix[0]);
        if k2 == k {
            let v = pairs[0].1;
            assert(t.subrange(p, p + pat.len()) =~= tok);
            lemma_replace_single(t, pat, v, p);
            assert(t.take(p) =~= pre);
            assert(t.skip(p + pat.len()) =~= suf);
            let t2 = pre + v + suf;
            assert forall|i: int| 0 <= i < t2.len() implies #[trigger] t2[i] != '$' by {
                if i < pre.len() {
                    assert(t2[i] == pre[i]);
                } else if i < pre.len() + v.len() {
                    assert(t2[i] == v[i - pre.len()]);
                } else {
                    assert(t2[i] == suf[i - pre.len() - v.len()]);
                }
            }
            lemma_apply_pairs_no_dollar(t2, prefix, pairs.skip(1));
        } else {
            if contains_seq(t, pat) {
                lemma_single_dollar_occurrence(t, pat, p);
                lemma_embedded_match_is_same(pre, prefix, k, suf, k2);
            }
            lemma_replace_none(t, pat, pairs[0].1);
            lemma_apply_pairs_embedded(pre, prefix, k, suf, pairs.skip(1));
        }
    }
}

/// A pass of another prefix, or the run-properties pass, leaves the
/// embedded token alone: every such pattern differs at its third letter.
proof fn lemma_embedded_skip_other(
    pre: Seq<char>,
    prefix: Seq<char>,
    k: Seq<char>,
    suf: Seq<char>,
    pat: Seq<char>,
)
    requires
        no_dollar(pre),
        no_dollar(suf),
        dollar_prefix(prefix),
        clean_name(k),
        pat.len() >= 3,
        pat[0] == '$',
        pat[2] != prefix[2],
    ensures
        !contains_seq(pre + token_of(prefix, k) + suf, pat),
{
    lemma_token_lens();
    lemma_embedded_token_dollars(pre, prefix, k, suf);
    let t = pre + token_of(prefix, k) + suf;
    let p = pre.len() as int;
    if contains_seq(t, pat) {
        lemma_single_dollar_occurrence(t, pat, p);
        assert(t.subrange(p, p + pat.len())[2] == t[p + 2]);
        assert(t[p + 2] == token_of(prefix, k)[2]);
        assert(token_of(prefix, k)[2] == prefix[2]);
    }
}

/// A pass of another prefix leaves the embedded token alone.
proof fn lemma_apply_pairs_embedded_cross(
    pre: Seq<char>,
    prefix: Seq<char>,
    k: Seq<char>,
    suf: Seq<char>,
    other: Seq<char>,
    pairs: Seq<(Seq<char>, Seq<char>)>,
)
    requires
        no_dollar(pre),
        no_dollar(suf),
        dollar_prefix(prefix),
        dollar_prefix(other),
        other[2] != prefix[2],
        clean_name(k),
    ensures
        spec_apply_pairs(pre + token_of(prefix, k) + suf, other, pairs) == pre + token_of(
            prefix,
            k,
        ) + suf,
    decreases pairs.len(),
{
    if pairs.len() > 0 {
        let pat = token_of(other, pairs[0].0);
        assert(pat[0] == other[0]);
        assert(pat[2] == other[2]);
        lemma_embedded_skip_other(pre, prefix, k, suf, pat);
        lemma_replace_none(pre + token_of(prefix, k) + suf, pat, pairs[0].1);
        lemma_apply_pairs_embedded_cross(pre, prefix, k, suf, other, pairs.skip(1));
    }
}

/// An environment token embedded in dollar-free text (with a brace-free
/// tail) interpolates to the first value its name is bound to, spliced in
/// place, provided that value is dollar-free; every other part of the text
/// is untouched.
pub proof fn lemma_env_token_in_text_resolved(
    pre: Seq<char>,
    k: Seq<char>,
    suf: Seq<char>,
    ctx: RunContextView,
    pip: PipelineView,
)
    requires
        no_dollar(pre),
        no_dollar(suf),
        no_close(suf),
        clean_name(k),
        crate::builder::spec_lookup(ctx.env, k) is Some,
        no_dollar(crate::builder::spec_lookup(ctx.env, k)->0),
    ensures
        spec_interpolate(pre + token_of(env_prefix(), k) + suf, ctx, pip) == pre
            + crate::builder::spec_lookup(ctx.env, k)->0 + suf,
{
    lemma_prefix_facts();
    lemma_token_lens();
    let t = pre + token_of(env_prefix(), k) + suf;
    let v = crate::builder::spec_lookup(ctx.env, k)->0;
    lemma_embedded_skip_other(pre, env_prefix(), k, suf, run_id_token());
    lemma_replace_none(t, run_id_token(), ctx.run_id);
    lemma_embedded_skip_other(pre, env_prefix(), k, suf, run_start_token());
    lemma_replace_none(t, run_start_token(), ctx.run_start_time);
    lemma_apply_pairs_embedded(pre, env_prefix(), k, suf, ctx.env);
    let t2 = pre + v + suf;
    assert forall|i: int| 0 <= i < t2.len() implies #[trigger] t2[i] != '$' by {
        if i < pre.len() {
            assert(t2[i] == pre[i]);
        } else if i < pre.len() + v.len() {
            assert(t2[i] == v[i - pre.len()]);
        } else {
            assert(t2[i] == suf[i - pre.len() - v.len()]);
        }
    }
    lemma_apply_pairs_no_dollar(t2, env_prefix(), pip.environment);
    lemma_apply_pairs_no_dollar(t2, var_prefix(), ctx.vars);
    lemma_apply_pairs_no_dollar(t2, var_prefix(), pip.variables);
}

/// An environment token embedded in dollar-free text (with a brace-free
/// tail) whose name neither the resolved environment nor the declarations
/// bind stays verbatim, and the surrounding text is untouched.
pub proof fn lemma_env_token_in_text_unresolved(
    pre: Seq<char>,
    k: Seq<char>,
    suf: Seq<char>,
    ctx: RunContextView,
    pip: PipelineView,
)
    requires
        no_dollar(pre),
        no_dollar(suf),
        no_close(suf),
        clean_name(k),
        crate::builder::spec_lookup(ctx.env, k) is None,
        crate::builder::spec_lookup(pip.environment, k) is None,
    ensures
        spec_interpolate(pre + token_of(env_prefix(), k) + suf, ctx, pip) == pre + token_of(
            env_prefix(),
            k,
        ) + suf,
{
    lemma_prefix_facts();
    lemma_token_lens();
    let t = pre + token_of(env_prefix(), k) + suf;
    lemma_embedded_skip_other(pre, env_prefix(), k, suf, run_id_token());
    lemma_replace_none(t, run_id_token(), ctx.run_id);
    lemma_embedded_skip_other(pre, env_prefix(), k, suf, run_start_token());
    lemma_replace_none(t, run_start_token(), ctx.run_start_time);
    lemma_apply_pairs_embedded(pre, env_prefix(), k, suf, ctx.env);
    lemma_apply_pairs_embedded(pre, env_prefix(), k, suf, pip.environment);
    lemma_apply_pairs_embedded_cross(pre, env_prefix(), k, suf, var_prefix(), ctx.vars);
    lemma_apply_pairs_embedded_cross(pre, env_prefix(), k, suf, var_prefix(), pip.variables);
}

/// The variable-token twin of the resolved embedded-token law.
pub proof fn lemma_var_token_in_text_resolved(
    pre: Seq<char>,
    k: Seq<char>,
    suf: Seq<char>,
    ctx: RunContextView,
    pip: PipelineView,
)
    requires
        no_dollar(pre),
        no_dollar(suf),
        no_close(suf),
        clean_name(k),
        crate::builder::spec_lookup(ctx.vars, k) is Some,
        no_dollar(crate::builder::spec_lookup(ctx.vars, k)->0),
    ensures
        spec_interpolate(pre + token_of(var_prefix(), k) + suf, ctx, pip) == pre
            + crate::builder::spec_lookup(ctx.vars, k)->0 + suf,
{
    lemma_prefix_facts();
    lemma_token_lens();
    let t = pre + token_of(var_prefix(), k) + suf;
    let v = crate::builder::spec_lookup(ctx.vars, k)->0;
    lemma_embedded_skip_other(pre, var_prefix(), k, suf, run_id_token());
    lemma_replace_none(t, run_id_token(), ctx.run_id);
    lemma_embedded_skip_other(pre, var_prefix(), k, suf, run_start_token());
    lemma_replace_none(t, run_start_token(), ctx.run_start_time);
    lemma_apply_pairs_embedded_cross(pre, var_prefix(), k, suf, env_prefix(), ctx.env);
    lemma_apply_pairs_embedded_cross(pre, var_prefix(), k, suf, env_prefix(), pip.environment);
    lemma_apply_pairs_embedded(pre, var_prefix(), k, suf, ctx.vars);
    let t2 = pre + v + suf;
    assert forall|i: int| 0 <= i < t2.len() implies #[trigger] t2[i] != '$' by {
        if i < pre.len() {
            assert(t2[i] == pre[i]);
        } else if i < pre.len() + v.len() {
            assert(t2[i] == v[i - pre.len()]);
        } else {
            assert(t2[i] == suf[i - pre.len() - v.len()]);
        }
    }
    lemma_apply_pairs_no_dollar(t2, var_prefix(), pip.variables);
}

/// The variable-token twin of the unresolved embedded-token law.
pub proof fn lemma_var_token_in_text_unresolved(
    pre: Seq<char>,
    k: Seq<char>,
    suf: Seq<char>,
    ctx: RunContextView,
    pip: PipelineView,
)
    requires
        no_dollar(pre),
        no_dollar(suf),
        no_close(suf),
        clean_name(k),
        crate::builder::spec_lookup(ctx.vars, k) is None,
        crate::builder::spec_lookup(pip.variables, k) is None,
    ensures
        spec_interpolate(pre + token_of(var_prefix(), k) + suf, ctx, pip) == pre + token_of(
            var_prefix(),
            k,
        ) + suf,
{
    lemma_prefix_facts();
    lemma_token_lens();
    let t = pre + token_of(var_prefix(), k) + suf;
    lemma_embedded_skip_other(pre, var_prefix(), k, suf, run_id_token());
    lemma_replace_none(t, run_id_token(), ctx.run_id);
    lemma_embedded_skip_other(pre, var_prefix(), k, suf, run_start_token());
    lemma_replace_none(t, run_start_token(), ctx.run_start_time);
    lemma_apply_pairs_embedded_cross(pre, var_prefix(), k, suf, env_prefix(), ctx.env);
    lemma_apply_pairs_embedded_cross(pre, var_prefix(), k, suf, env_prefix(), pip.environment);
    lemma_apply_pairs_embedded(pre, var_prefix(), k, suf, ctx.vars);
    lemma_apply_pairs_embedded(pre, var_prefix(), k, suf, pip.variables);
}

} // verus!
