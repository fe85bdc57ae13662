//! The filter chain: a table of targets with their thresholds, which decides
//! whether a record is emitted and how verbose the logger can ever be.

use crate::error::Error;
use crate::level::{Level, LevelFilter};
use crate::record::Record;
use crate::text::{
    compare_bytes, lemma_between_has_prefix, lemma_lex_transitive, lemma_lex_trichotomy,
    lemma_prefix_is_le, lemma_prefixes_nest, lex_lt, starts_with_bytes, Placement,
};
use vstd::prelude::*;
use vstd::utf8::encode_utf8;

verus! {

/// One line of a filter table: a target, as the bytes of its UTF-8 encoding,
/// and the threshold for the records it matches.
pub struct Rule {
    pub target: Seq<u8>,
    pub level: LevelFilter,
}

/// The rule that a stored entry stands for.
pub open spec fn rule_of(entry: (String, LevelFilter)) -> Rule {
    Rule { target: encode_utf8(entry.0@), level: entry.1 }
}

/// The rules that a list of entries stands for, in the same order.
pub open spec fn rules_of(entries: Seq<(String, LevelFilter)>) -> Seq<Rule> {
    Seq::new(entries.len(), |i: int| rule_of(entries[i]))
}

/// Whether a rule's target matches a queried target: in prefix mode the
/// query starts with it, in exact mode the query is it.
pub open spec fn rule_matches(rule: Seq<u8>, target: Seq<u8>, prefix_mode: bool) -> bool {
    if prefix_mode {
        rule.is_prefix_of(target)
    } else {
        rule == target
    }
}

/// Whether two rule targets could match one query: in prefix mode one is a
/// prefix of the other, in exact mode they are equal.
pub open spec fn overlap(a: Seq<u8>, b: Seq<u8>, prefix_mode: bool) -> bool {
    if prefix_mode {
        a.is_prefix_of(b) || b.is_prefix_of(a)
    } else {
        a == b
    }
}

/// Some two rules of the table overlap.
pub open spec fn has_overlap(rules: Seq<Rule>, prefix_mode: bool) -> bool {
    exists|i: int, j: int|
        0 <= i < j < rules.len() && #[trigger] overlap(
            rules[i].target,
            rules[j].target,
            prefix_mode,
        )
}

/// The targets stand in strictly ascending dictionary order.
pub open spec fn sorted(rules: Seq<Rule>) -> bool {
    forall|i: int, j: int|
        0 <= i < j < rules.len() ==> lex_lt(#[trigger] rules[i].target, #[trigger] rules[j].target)
}

/// Some rule of the table matches the target.
pub open spec fn has_match(rules: Seq<Rule>, target: Seq<u8>, prefix_mode: bool) -> bool {
    exists|i: int| 0 <= i < rules.len() && rule_matches(#[trigger] rules[i].target, target, prefix_mode)
}

/// The place of a rule that matches the target, where there is one.
pub open spec fn match_index(rules: Seq<Rule>, target: Seq<u8>, prefix_mode: bool) -> int {
    choose|i: int| 0 <= i < rules.len() && rule_matches(#[trigger] rules[i].target, target, prefix_mode)
}

/// The decision of a table on a record: the matching rule's threshold
/// decides, and where no rule matches the policy for unmatched targets does.
pub open spec fn admits(
    rules: Seq<Rule>,
    prefix_mode: bool,
    pass_unmatched: bool,
    target: Seq<u8>,
    level: Level,
) -> bool {
    if has_match(rules, target, prefix_mode) {
        rules[match_index(rules, target, prefix_mode)].level.allows(level)
    } else {
        pass_unmatched
    }
}

/// The most verbose threshold among the rules, `Off` for an empty table.
pub open spec fn max_rule_level(rules: Seq<Rule>) -> LevelFilter
    decreases rules.len(),
{
    if rules.len() == 0 {
        LevelFilter::Off
    } else {
        max_rule_level(rules.drop_last()).max(rules.last().level)
    }
}

/// The most verbose level that a table can ever admit: the base where there
/// are no rules; else the most verbose rule, together with the base where
/// unmatched targets pass.
pub open spec fn ceiling(rules: Seq<Rule>, base: LevelFilter, pass_unmatched: bool) -> LevelFilter {
    if rules.len() == 0 {
        base
    } else if pass_unmatched {
        max_rule_level(rules).max(base)
    } else {
        max_rule_level(rules)
    }
}

/// The text of the error that refuses a table with overlapping rules.
pub open spec fn overlap_error_text() -> Seq<char> {
    "dedup token effect"@
}

fn entry_bytes(entry: &(String, LevelFilter)) -> (bytes: &[u8])
    ensures
        bytes@ == rule_of(*entry).target,
{
    entry.0.as_str().as_bytes()
}

fn comes_before(a: &[u8], b: &[u8]) -> (r: bool)
    ensures
        r == lex_lt(a@, b@),
{
    compare_bytes(a, b) == Placement::Before
}

fn applies(rule: &[u8], target: &[u8], prefix_mode: bool) -> (r: bool)
    ensures
        r == rule_matches(rule@, target@, prefix_mode),
{
    if prefix_mode {
        starts_with_bytes(target, rule)
    } else {
        compare_bytes(rule, target) == Placement::Same
    }
}

/// In a sorted table without overlap, a target that overlaps none of its two
/// neighbours at `pos` overlaps no rule at all.
proof fn lemma_neighbours_decide(rules: Seq<Rule>, e: Seq<u8>, pos: int, prefix_mode: bool)
    requires
        sorted(rules),
        !has_overlap(rules, prefix_mode),
        0 <= pos <= rules.len(),
        forall|q: int| 0 <= q < pos ==> lex_lt(#[trigger] rules[q].target, e),
        pos < rules.len() ==> !lex_lt(rules[pos].target, e),
        pos < rules.len() ==> !rule_matches(e, rules[pos].target, prefix_mode),
        pos > 0 ==> !rule_matches(rules[pos - 1].target, e, prefix_mode),
    ensures
        forall|q: int| 0 <= q < rules.len() ==> !overlap(#[trigger] rules[q].target, e, prefix_mode),
        forall|q: int| pos <= q < rules.len() ==> lex_lt(e, #[trigger] rules[q].target),
{
    assert forall|q: int| pos <= q < rules.len() implies lex_lt(e, #[trigger] rules[q].target) by {
        let first = rules[pos].target;
        lemma_lex_trichotomy(first, e);
        if prefix_mode && first == e {
            assert(e =~= first.subrange(0, e.len() as int));
        }
        if q > pos {
            lemma_lex_transitive(e, first, rules[q].target);
        }
    }
    assert forall|q: int| 0 <= q < rules.len() implies !overlap(
        #[trigger] rules[q].target,
        e,
        prefix_mode,
    ) by {
        let r = rules[q].target;
        lemma_lex_trichotomy(r, e);
        if prefix_mode {
            if q < pos {
                if e.is_prefix_of(r) {
                    lemma_prefix_is_le(e, r);
                }
                if r.is_prefix_of(e) {
                    let prev = rules[pos - 1].target;
                    if q < pos - 1 {
                        lemma_between_has_prefix(r, prev, e);
                        assert(overlap(rules[q].target, rules[pos - 1].target, prefix_mode));
                    }
                }
            } else {
                if r.is_prefix_of(e) {
                    lemma_prefix_is_le(r, e);
                }
                if e.is_prefix_of(r) {
                    let next = rules[pos].target;
                    if q > pos {
                        lemma_between_has_prefix(e, next, r);
                    }
                }
            }
        }
    }
}

/// Puts the entry at its place in a sorted table, unless it overlaps a rule
/// that is already there.
fn place(
    table: &mut Vec<(String, LevelFilter)>,
    entry: (String, LevelFilter),
    prefix_mode: bool,
) -> (placed: bool)
    requires
        sorted(rules_of(old(table)@)),
        !has_overlap(rules_of(old(table)@), prefix_mode),
    ensures
        placed <==> forall|q: int|
            0 <= q < old(table)@.len() ==> !overlap(
                #[trigger] rules_of(old(table)@)[q].target,
                rule_of(entry).target,
                prefix_mode,
            ),
        placed ==> exists|pos: int|
            0 <= pos <= old(table)@.len() && rules_of(final(table)@) == #[trigger] rules_of(
                old(table)@,
            ).insert(pos, rule_of(entry)),
        placed ==> sorted(rules_of(final(table)@)),
        placed ==> !has_overlap(rules_of(final(table)@), prefix_mode),
        !placed ==> final(table)@ == old(table)@,
{
    let ghost rules = rules_of(table@);
    let ghost e = rule_of(entry).target;
    let mut pos: usize = 0;
    while pos < table.len() && comes_before(entry_bytes(&table[pos]), entry_bytes(&entry))
        invariant
            pos <= table.len(),
            rules == rules_of(table@),
            e == rule_of(entry).target,
            forall|q: int| 0 <= q < pos ==> lex_lt(#[trigger] rules[q].target, e),
        decreases table.len() - pos,
    {
        assert(rules[pos as int].target == rule_of(table@[pos as int]).target);
        pos += 1;
    }
    if pos < table.len() {
        assert(rules[pos as int].target == rule_of(table@[pos as int]).target);
        if applies(entry_bytes(&entry), entry_bytes(&table[pos]), prefix_mode) {
            assert(overlap(rules[pos as int].target, e, prefix_mode));
            return false;
        }
    }
    if pos > 0 {
        assert(rules[pos - 1].target == rule_of(table@[pos - 1]).target);
        if applies(entry_bytes(&table[pos - 1]), entry_bytes(&entry), prefix_mode) {
            assert(overlap(rules[pos - 1].target, e, prefix_mode));
            return false;
        }
    }
    proof {
        lemma_neighbours_decide(rules, e, pos as int, prefix_mode);
    }
    let ghost new_rule = rule_of(entry);
    table.insert(pos, entry);
    proof {
        let after = rules_of(table@);
        assert(after =~= rules.insert(pos as int, new_rule));
        assert forall|i: int, j: int| 0 <= i < j < after.len() implies lex_lt(
            #[trigger] after[i].target,
            #[trigger] after[j].target,
        ) && !overlap(after[i].target, after[j].target, prefix_mode) by {
            let oi = if i < pos { i } else { i - 1 };
            let oj = if j < pos { j } else { j - 1 };
            if i != pos && j != pos {
                assert(after[i] == rules[oi]);
                assert(after[j] == rules[oj]);
                assert(!overlap(rules[oi].target, rules[oj].target, prefix_mode));
            } else if i == pos {
                assert(after[j] == rules[oj]);
                assert(!overlap(rules[oj].target, e, prefix_mode));
            } else {
                assert(after[i] == rules[oi]);
                assert(!overlap(rules[oi].target, e, prefix_mode));
            }
        }
    }
    true
}

/// A filter decides which records are emitted and bounds how verbose the
/// logger can be. `spec_passes` is its decision as a function of target and
/// level, `spec_maxlevel` that bound, and `spec_ready` says that the filter
/// has been built and may be asked. `spec_buildable` says which
/// configurations can be built, `spec_builds_into` what the built filter
/// keeps of its configuration, and `spec_refuses_with` which error refuses
/// a configuration that cannot be built.
pub trait Filter: Send + Sync + 'static {
    spec fn spec_ready(&self) -> bool;

    spec fn spec_passes(&self, target: Seq<u8>, level: Level) -> bool;

    spec fn spec_maxlevel(&self) -> LevelFilter;

    spec fn spec_buildable(&self) -> bool;

    spec fn spec_builds_into(&self, built: &Self) -> bool;

    spec fn spec_refuses_with(&self, error: Error) -> bool;

    /// Builds the filter for use behind a logger, or refuses the
    /// configuration.
    fn boxed(self) -> (r: Result<Box<Self>, Error>) where Self: Sized
        ensures
            r is Ok <==> self.spec_buildable(),
            r matches Ok(f) ==> f.spec_ready() && self.spec_builds_into(&*f),
            r matches Err(e) ==> self.spec_refuses_with(e),
    ;

    /// Whether the record is emitted.
    fn log(&self, record: &Record) -> (r: bool)
        requires
            self.spec_ready(),
        ensures
            r == self.spec_passes(record.target_bytes(), record.level),
    ;

    /// Whether a record of this target and level would be emitted.
    fn enabled(&self, target: &str, level: Level) -> (r: bool)
        requires
            self.spec_ready(),
        ensures
            r == self.spec_passes(encode_utf8(target@), level),
    ;

    /// The most verbose level that the filter can admit.
    fn maxlevel(&self) -> (r: LevelFilter)
        ensures
            r == self.spec_maxlevel(),
    ;
}

/// The built-in filter: a table of rules, a base threshold, a matching mode
/// and a policy for targets that no rule matches.
#[derive(Debug, Clone)]
pub struct BaseFilter {
    filters: Vec<(String, LevelFilter)>,
    max_level: LevelFilter,
    starts_with: bool,
    notfound: bool,
}

impl BaseFilter {
    /// The rules, in the order in which the table holds them.
    pub closed spec fn rules(&self) -> Seq<Rule> {
        rules_of(self.filters@)
    }

    /// The base threshold.
    pub closed spec fn base(&self) -> LevelFilter {
        self.max_level
    }

    /// Whether a rule matches every target that starts with it (`true`) or
    /// only the target equal to it (`false`).
    pub closed spec fn prefix_mode(&self) -> bool {
        self.starts_with
    }

    /// Whether records of targets that no rule matches are emitted.
    pub closed spec fn pass_unmatched(&self) -> bool {
        self.notfound
    }

    /// The table is sorted and no two of its rules overlap: it can be
    /// searched.
    pub open spec fn is_built(&self) -> bool {
        &&& sorted(self.rules())
        &&& !has_overlap(self.rules(), self.prefix_mode())
    }

    /// The filter's decision on a target and a level.
    pub open spec fn decision(&self, target: Seq<u8>, level: Level) -> bool {
        admits(self.rules(), self.prefix_mode(), self.pass_unmatched(), target, level)
    }

    /// The most verbose level that this configuration can admit.
    pub open spec fn spec_max_level_get(&self) -> LevelFilter {
        ceiling(self.rules(), self.base(), self.pass_unmatched())
    }

    /// What building keeps: the built table holds the same rules, each as
    /// often, under the same mode and policy; it decides every target and
    /// level as the configuration does; and its base is the configuration's
    /// ceiling.
    pub open spec fn kept_by(&self, built: &BaseFilter) -> bool {
        &&& built.rules().to_multiset() == self.rules().to_multiset()
        &&& built.prefix_mode() == self.prefix_mode()
        &&& built.pass_unmatched() == self.pass_unmatched()
        &&& built.base() == self.spec_max_level_get()
        &&& forall|target: Seq<u8>, level: Level| #[trigger]
            built.decision(target, level) == self.decision(target, level)
    }

    /// An empty table in exact mode that lets every record through.
    pub fn new() -> (f: BaseFilter)
        ensures
            f.rules() == Seq::<Rule>::empty(),
            f.base() == LevelFilter::Trace,
            !f.prefix_mode(),
            f.pass_unmatched(),
            f.is_built(),
    {
        let f = Self { filters: Vec::new(), max_level: LevelFilter::Trace, starts_with: false, notfound: true };
        assert(f.rules() =~= Seq::<Rule>::empty());
        f
    }

    /// Sets whether records of targets that no rule matches are emitted.
    pub fn notfound(self, pass: bool) -> (f: BaseFilter)
        ensures
            f.pass_unmatched() == pass,
            f.rules() == self.rules(),
            f.base() == self.base(),
            f.prefix_mode() == self.prefix_mode(),
    {
        let mut f = self;
        f.notfound = pass;
        f
    }

    /// Sets the matching mode: by prefix (`true`) or exact (`false`).
    pub fn starts_with(self, yes: bool) -> (f: BaseFilter)
        ensures
            f.prefix_mode() == yes,
            f.rules() == self.rules(),
            f.base() == self.base(),
            f.pass_unmatched() == self.pass_unmatched(),
    {
        let mut f = self;
        f.starts_with = yes;
        f
    }

    /// Adds the rules at the end of the table, in their order.
    pub fn chain_iter(self, filters: Vec<(String, LevelFilter)>) -> (f: BaseFilter)
        ensures
            f.rules() == self.rules() + rules_of(filters@),
            f.base() == self.base(),
            f.prefix_mode() == self.prefix_mode(),
            f.pass_unmatched() == self.pass_unmatched(),
    {
        let mut f = self;
        let mut filters = filters;
        let ghost before = f.filters@;
        let ghost added = filters@;
        f.filters.append(&mut filters);
        assert(rules_of(before + added) =~= rules_of(before) + rules_of(added));
        f
    }

    /// Adds one rule at the end of the table.
    pub fn chain(self, target: &str, level: LevelFilter) -> (f: BaseFilter)
        ensures
            f.rules() == self.rules().push(Rule { target: encode_utf8(target@), level }),
            f.base() == self.base(),
            f.prefix_mode() == self.prefix_mode(),
            f.pass_unmatched() == self.pass_unmatched(),
    {
        let mut f = self;
        let ghost before = f.filters@;
        let entry = (target.to_owned(), level);
        f.filters.push(entry);
        assert(rules_of(before.push(entry)) =~= rules_of(before).push(rule_of(entry)));
        f
    }

    /// Sets the base threshold.
    pub fn max_level(self, max_level: LevelFilter) -> (f: BaseFilter)
        ensures
            f.base() == max_level,
            f.rules() == self.rules(),
            f.prefix_mode() == self.prefix_mode(),
            f.pass_unmatched() == self.pass_unmatched(),
    {
        let mut f = self;
        f.max_level = max_level;
        f
    }

    /// The most verbose level that this configuration can admit.
    #[verifier::when_used_as_spec(spec_max_level_get)]
    pub fn max_level_get(&self) -> (r: LevelFilter)
        ensures
            r == self.spec_max_level_get(),
    {
        let n = self.filters.len();
        if n == 0 {
            return self.max_level;
        }
        let ghost rules = self.rules();
        let mut top = LevelFilter::Off;
        let mut i: usize = 0;
        while i < n
            invariant
                i <= n,
                n == self.filters.len(),
                rules == self.rules(),
                top == max_rule_level(rules.take(i as int)),
            decreases n - i,
        {
            assert(rules.take(i + 1).drop_last() =~= rules.take(i as int));
            assert(rules.take(i + 1).last().level == self.filters@[i as int].1);
            top = top.max(self.filters[i].1);
            i += 1;
        }
        assert(rules.take(n as int) =~= rules);
        if self.notfound {
            top.max(self.max_level)
        } else {
            top
        }
    }

    pub fn starts_with_get(&self) -> (r: bool)
        ensures
            r == self.prefix_mode(),
    {
        self.starts_with
    }

    /// Builds the table for searching: sorts the rules by target and stores
    /// the ceiling as the new base. A table in which two rules overlap is
    /// refused, whatever the order in which they were added.
    pub fn built(self) -> (r: Result<BaseFilter, Error>)
        ensures
            r is Ok <==> !has_overlap(self.rules(), self.prefix_mode()),
            r matches Ok(f) ==> f.is_built() && self.kept_by(&f),
            r matches Err(e) ==> e matches Error::Desc(s) && s@ == overlap_error_text(),
    {
        let top = self.max_level_get();
        let starts_with = self.starts_with;
        let notfound = self.notfound;
        let ghost orig = self.rules();
        let mut rest = self.filters;
        let mut table: Vec<(String, LevelFilter)> = Vec::new();
        assert(orig.take(rest@.len() as int) =~= orig);
        assert(rules_of(table@) =~= orig.skip(rest@.len() as int));
        while rest.len() > 0
            invariant
                orig == self.rules(),
                starts_with == self.prefix_mode(),
                rest@.len() <= orig.len(),
                rules_of(rest@) == orig.take(rest@.len() as int),
                rules_of(table@).to_multiset() == orig.skip(rest@.len() as int).to_multiset(),
                sorted(rules_of(table@)),
                !has_overlap(rules_of(table@), starts_with),
                !has_overlap(orig.skip(rest@.len() as int), starts_with),
            decreases rest.len(),
        {
            let ghost before = rest@;
            let ghost k = before.len() - 1;
            let ghost held = rules_of(table@);
            let ghost done = orig.skip(k + 1);
            let entry = rest.pop().unwrap();
            proof {
                assert(rule_of(entry) == rules_of(before)[k]);
                assert(rules_of(rest@) =~= orig.take(k));
                held.to_multiset_ensures();
                done.to_multiset_ensures();
            }
            let placed = place(&mut table, entry, starts_with);
            if !placed {
                proof {
                    let q = choose|q: int|
                        0 <= q < held.len() && overlap(
                            #[trigger] held[q].target,
                            orig[k].target,
                            starts_with,
                        );
                    assert(held.contains(held[q]));
                    assert(held.to_multiset().count(held[q]) > 0);
                    assert(done.to_multiset().count(held[q]) > 0);
                    let m = choose|m: int| 0 <= m < done.len() && done[m] == held[q];
                    assert(overlap(orig[k].target, orig[k + 1 + m].target, starts_with));
                }
                return Err(Error::desc("dedup token effect"));
            }
            proof {
                let now = orig.skip(k);
                let pos = choose|pos: int|
                    0 <= pos <= held.len() && rules_of(table@) == #[trigger] held.insert(
                        pos,
                        orig[k],
                    );
                vstd::seq_lib::to_multiset_insert(held, pos, orig[k]);
                assert(now =~= done.insert(0, orig[k]));
                vstd::seq_lib::to_multiset_insert(done, 0, orig[k]);
                assert forall|i: int, j: int| 0 <= i < j < now.len() implies !overlap(
                    now[i].target,
                    now[j].target,
                    starts_with,
                ) by {
                    if i > 0 {
                        assert(!overlap(done[i - 1].target, done[j - 1].target, starts_with));
                    } else {
                        assert(done.contains(done[j - 1]));
                        assert(done.to_multiset().count(done[j - 1]) > 0);
                        assert(held.to_multiset().count(done[j - 1]) > 0);
                        let q = choose|q: int| 0 <= q < held.len() && held[q] == done[j - 1];
                        assert(!overlap(held[q].target, orig[k].target, starts_with));
                    }
                }
            }
        }
        assert(orig.skip(0) =~= orig);
        let built = Self { filters: table, max_level: top, starts_with, notfound };
        proof {
            assert forall|target: Seq<u8>, level: Level| #[trigger]
                built.decision(target, level) == self.decision(target, level) by {
                lemma_decision_ignores_order(
                    built.rules(),
                    orig,
                    starts_with,
                    notfound,
                    target,
                    level,
                );
            }
        }
        Ok(built)
    }

    /// The decision on a target and a level, by binary search over the built
    /// table.
    pub fn check(&self, target: &str, level: Level) -> (r: bool)
        requires
            self.is_built(),
        ensures
            r == self.decision(encode_utf8(target@), level),
    {
        let wanted = target.as_bytes();
        let ghost rules = self.rules();
        let ghost mode = self.starts_with;
        let mut lo: usize = 0;
        let mut hi: usize = self.filters.len();
        while lo < hi
            invariant
                lo <= hi <= self.filters.len(),
                rules == self.rules(),
                mode == self.starts_with,
                wanted@ == encode_utf8(target@),
                self.is_built(),
                forall|i: int|
                    0 <= i < lo ==> lex_lt(#[trigger] rules[i].target, wanted@) && !rule_matches(
                        rules[i].target,
                        wanted@,
                        mode,
                    ),
                forall|i: int|
                    hi <= i < rules.len() ==> lex_lt(wanted@, #[trigger] rules[i].target)
                        && !rule_matches(rules[i].target, wanted@, mode),
            decreases hi - lo,
        {
            let mid = lo + (hi - lo) / 2;
            let here = entry_bytes(&self.filters[mid]);
            assert(here@ == rules[mid as int].target);
            let found = applies(here, wanted, self.starts_with);
            if found {
                proof {
                    lemma_match_unique(rules, wanted@, mode, mid as int);
                }
                return self.filters[mid].1.allows(level);
            }
            let side = compare_bytes(here, wanted);
            proof {
                lemma_lex_trichotomy(here@, wanted@);
                if mode && here@ == wanted@ {
                    assert(here@ =~= wanted@.subrange(0, here@.len() as int));
                }
            }
            if side == Placement::Before {
                proof {
                    assert forall|i: int| lo <= i <= mid implies lex_lt(
                        #[trigger] rules[i].target,
                        wanted@,
                    ) && !rule_matches(rules[i].target, wanted@, mode) by {
                        let r = rules[i].target;
                        if i < mid {
                            lemma_lex_transitive(r, here@, wanted@);
                            lemma_lex_trichotomy(r, wanted@);
                            if mode && r.is_prefix_of(wanted@) {
                                lemma_between_has_prefix(r, here@, wanted@);
                                assert(overlap(rules[i].target, rules[mid as int].target, mode));
                            }
                        }
                    }
                }
                lo = mid + 1;
            } else {
                proof {
                    assert forall|i: int| mid <= i < rules.len() implies lex_lt(
                        wanted@,
                        #[trigger] rules[i].target,
                    ) && !rule_matches(rules[i].target, wanted@, mode) by {
                        let r = rules[i].target;
                        if i > mid {
                            lemma_lex_transitive(wanted@, here@, r);
                        }
                        lemma_lex_trichotomy(r, wanted@);
                        if mode && r.is_prefix_of(wanted@) {
                            lemma_prefix_is_le(r, wanted@);
                        }
                    }
                }
                hi = mid;
            }
        }
        assert(!has_match(rules, wanted@, mode));
        self.notfound
    }
}

/// In a table without overlap at most one rule matches a target, so the rule
/// found is the rule that decides.
pub proof fn lemma_match_unique(rules: Seq<Rule>, target: Seq<u8>, prefix_mode: bool, i: int)
    requires
        !has_overlap(rules, prefix_mode),
        0 <= i < rules.len(),
        rule_matches(rules[i].target, target, prefix_mode),
    ensures
        has_match(rules, target, prefix_mode),
        match_index(rules, target, prefix_mode) == i,
{
    let j = match_index(rules, target, prefix_mode);
    if j != i {
        let a = rules[i].target;
        let b = rules[j].target;
        if prefix_mode {
            if a.len() <= b.len() {
                lemma_prefixes_nest(a, b, target);
            } else {
                lemma_prefixes_nest(b, a, target);
            }
        }
        if i < j {
            assert(overlap(rules[i].target, rules[j].target, prefix_mode));
        } else {
            assert(overlap(rules[j].target, rules[i].target, prefix_mode));
        }
    }
}

impl Filter for BaseFilter {
    open spec fn spec_ready(&self) -> bool {
        self.is_built()
    }

    open spec fn spec_passes(&self, target: Seq<u8>, level: Level) -> bool {
        self.decision(target, level)
    }

    open spec fn spec_maxlevel(&self) -> LevelFilter {
        self.base()
    }

    open spec fn spec_buildable(&self) -> bool {
        !has_overlap(self.rules(), self.prefix_mode())
    }

    open spec fn spec_builds_into(&self, built: &BaseFilter) -> bool {
        self.kept_by(built)
    }

    open spec fn spec_refuses_with(&self, error: Error) -> bool {
        error matches Error::Desc(s) && s@ == overlap_error_text()
    }

    fn boxed(self) -> (r: Result<Box<Self>, Error>) {
        match self.built() {
            Ok(f) => Ok(Box::new(f)),
            Err(e) => Err(e),
        }
    }

    fn log(&self, record: &Record) -> (r: bool) {
        self.check(record.target(), record.level())
    }

    fn enabled(&self, target: &str, level: Level) -> (r: bool) {
        self.check(target, level)
    }

    fn maxlevel(&self) -> (r: LevelFilter) {
        self.max_level
    }
}

impl Default for BaseFilter {
    fn default() -> (f: BaseFilter)
        ensures
            f.rules() == Seq::<Rule>::empty(),
            f.base() == LevelFilter::Trace,
            !f.prefix_mode(),
            f.pass_unmatched(),
    {
        Self::new()
    }
}

/// The decision of a table does not depend on the order of its rules: two
/// tables without overlap that hold the same rules, in whatever order, decide
/// every target and level alike under one mode and one policy for unmatched
/// targets.
pub proof fn lemma_decision_ignores_order(
    a: Seq<Rule>,
    b: Seq<Rule>,
    prefix_mode: bool,
    pass_unmatched: bool,
    target: Seq<u8>,
    level: Level,
)
    requires
        a.to_multiset() == b.to_multiset(),
        !has_overlap(a, prefix_mode),
        !has_overlap(b, prefix_mode),
    ensures
        admits(a, prefix_mode, pass_unmatched, target, level) == admits(
            b,
            prefix_mode,
            pass_unmatched,
            target,
            level,
        ),
{
    a.to_multiset_ensures();
    b.to_multiset_ensures();
    if has_match(a, target, prefix_mode) {
        let i = match_index(a, target, prefix_mode);
        assert(a.contains(a[i]));
        assert(a.to_multiset().count(a[i]) > 0);
        assert(b.contains(a[i]));
        let j = choose|j: int| 0 <= j < b.len() && b[j] == a[i];
        lemma_match_unique(b, target, prefix_mode, j);
    } else if has_match(b, target, prefix_mode) {
        let j = match_index(b, target, prefix_mode);
        assert(b.contains(b[j]));
        assert(b.to_multiset().count(b[j]) > 0);
        assert(a.contains(b[j]));
        let i = choose|i: int| 0 <= i < a.len() && a[i] == b[j];
        lemma_match_unique(a, target, prefix_mode, i);
    }
}

/// A table in prefix mode in which one rule's target is a prefix of
/// another's, or equal to it, has an overlap and is refused when it is built;
/// so has a table in exact mode that holds one target twice.
pub proof fn lemma_prefix_rules_overlap(rules: Seq<Rule>, prefix_mode: bool, i: int, j: int)
    requires
        0 <= i < rules.len(),
        0 <= j < rules.len(),
        i != j,
        if prefix_mode {
            rules[i].target.is_prefix_of(rules[j].target)
        } else {
            rules[i].target == rules[j].target
        },
    ensures
        has_overlap(rules, prefix_mode),
{
    if i < j {
        assert(overlap(rules[i].target, rules[j].target, prefix_mode));
    } else {
        assert(overlap(rules[j].target, rules[i].target, prefix_mode));
    }
}

/// The most verbose rule level is the level of one of the rules, and no rule
/// is more verbose.
pub proof fn lemma_max_rule_level(rules: Seq<Rule>)
    ensures
        forall|i: int| 0 <= i < rules.len() ==> (#[trigger] rules[i]).level.rank() <= max_rule_level(rules).rank(),
        rules.len() > 0 ==> exists|i: int| 0 <= i < rules.len() && (#[trigger] rules[i]).level == max_rule_level(rules),
        rules.len() == 0 ==> max_rule_level(rules) == LevelFilter::Off,
    decreases rules.len(),
{
    if rules.len() > 0 {
        let front = rules.drop_last();
        lemma_max_rule_level(front);
        assert forall|i: int| 0 <= i < rules.len() implies (#[trigger] rules[i]).level.rank()
            <= max_rule_level(rules).rank() by {
            if i < front.len() {
                assert(front[i] == rules[i]);
            }
        }
        if max_rule_level(rules) == rules.last().level {
            assert(rules[rules.len() - 1].level == max_rule_level(rules));
        } else {
            let i = choose|i: int| 0 <= i < front.len() && (#[trigger] front[i]).level == max_rule_level(front);
            assert(rules[i] == front[i]);
        }
    }
}

/// The ceiling of a table with rules is its most verbose rule level, unless
/// unmatched targets pass and the base is more verbose than every rule.
/// Without rules the ceiling is the base, and with rules it differs from the
/// base wherever the most verbose rule level does and, if unmatched targets
/// pass, exceeds it.
pub proof fn lemma_ceiling(rules: Seq<Rule>, base: LevelFilter, pass_unmatched: bool)
    ensures
        rules.len() == 0 ==> ceiling(rules, base, pass_unmatched) == base,
        rules.len() > 0 && (pass_unmatched ==> base.rank() <= max_rule_level(rules).rank())
            ==> ceiling(rules, base, pass_unmatched) == max_rule_level(rules),
        rules.len() > 0 && pass_unmatched ==> ceiling(rules, base, pass_unmatched).rank() >= base.rank(),
        rules.len() > 0 && max_rule_level(rules) != base && (pass_unmatched ==> base.rank()
            < max_rule_level(rules).rank()) ==> ceiling(rules, base, pass_unmatched) != base,
{
    crate::level::lemma_rank_injective(max_rule_level(rules), base, Level::Error, Level::Error);
}

} // verus!
