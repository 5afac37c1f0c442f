//! Building the schema's header rules from the configuration: the strings
//! and patterns the rules name are interned, each kept once, and the rules
//! refer to them by id.
use vstd::prelude::*;

use crate::schema::StringId;
use crate::util::str_eq;

verus! {

/// Refers to a regular expression pattern of the schema.
#[derive(Debug, Clone, Copy, PartialEq, Eq, Structural, PartialOrd, Ord, Hash)]
pub struct RegexId(pub u32);

/// Strings kept once each, referred to by their position.
#[derive(Debug)]
pub struct Interner {
    items: Vec<String>,
}

pub open spec fn string_views(v: Seq<String>) -> Seq<Seq<char>> {
    v.map_values(|s: String| s@)
}

/// `i` is the first position of `x` in `s`.
pub open spec fn is_first_at(s: Seq<Seq<char>>, x: Seq<char>, i: int) -> bool {
    0 <= i < s.len() && s[i] == x && forall|j: int| 0 <= j < i ==> s[j] != x
}

/// Interning `x` into the strings `s`: the strings afterwards, and the id
/// of `x` (its first position, or the end, where it is added).
pub open spec fn intern(s: Seq<Seq<char>>, x: Seq<char>) -> (Seq<Seq<char>>, nat) {
    if exists|i: int| 0 <= i < s.len() && s[i] == x {
        (s, (choose|i: int| is_first_at(s, x, i)) as nat)
    } else {
        (s.push(x), s.len())
    }
}

/// No string occurs twice.
pub open spec fn distinct(s: Seq<Seq<char>>) -> bool {
    forall|i: int, j: int| 0 <= i < j < s.len() ==> s[i] != s[j]
}

impl View for Interner {
    type V = Seq<Seq<char>>;

    closed spec fn view(&self) -> Seq<Seq<char>> {
        string_views(self.items@)
    }
}

proof fn lemma_first_exists(s: Seq<Seq<char>>, x: Seq<char>, k: int)
    requires
        0 <= k < s.len(),
        s[k] == x,
    ensures
        exists|i: int| is_first_at(s, x, i),
    decreases k,
{
    if exists|j: int| 0 <= j < k && s[j] == x {
        let j = choose|j: int| 0 <= j < k && s[j] == x;
        lemma_first_exists(s, x, j);
    } else {
        assert(is_first_at(s, x, k));
    }
}

impl Interner {
    /// An interner holding the given strings, in order.
    pub fn from_vec(items: Vec<String>) -> (r: Interner)
        ensures
            r@ == string_views(items@),
    {
        Interner { items }
    }

    /// The number of strings held.
    pub fn len(&self) -> (r: usize)
        ensures
            r == self@.len(),
    {
        self.items.len()
    }

    /// The strings held, in order.
    pub fn into_vec(self) -> (r: Vec<String>)
        ensures
            string_views(r@) == self@,
    {
        self.items
    }

    /// The id of `s`: the position where it is held, or a new position at
    /// the end, where it is added.
    pub fn get_or_new(&mut self, s: &str) -> (id: u32)
        requires
            old(self)@.len() < u32::MAX,
        ensures
            (final(self)@, id as nat) == intern(old(self)@, s@),
    {
        let mut i: usize = 0;
        while i < self.items.len()
            invariant
                i <= self.items@.len(),
                self.items@.len() < u32::MAX,
                forall|j: int| 0 <= j < i ==> self@[j] != s@,
            decreases self.items.len() - i,
        {
            if str_eq(self.items[i].as_str(), s) {
                proof {
                    assert(self@[i as int] == s@);
                    assert(is_first_at(self@, s@, i as int));
                    lemma_first_exists(self@, s@, i as int);
                    let w = choose|w: int| is_first_at(self@, s@, w);
                    if w < i {
                        assert(self@[w] != s@);
                    } else if w > i {
                        assert(self@[i as int] != s@);
                    }
                }
                return i as u32;
            }
            i += 1;
        }
        let ghost before = self@;
        self.items.push(s.to_owned());
        proof {
            assert(self@ =~= before.push(s@));
        }
        i as u32
    }
}

/// A header named by its name or by a regular expression.
#[derive(Debug)]
pub enum ConfigNameOrPattern {
    /// The source of a regular expression.
    Pattern(String),
    /// A string of the configuration.
    Name(usize),
}

/// A header rule of the configuration; names refer to its strings.
#[derive(Debug)]
pub enum ConfigHeaderRule {
    Forward { name: ConfigNameOrPattern, default: Option<usize>, rename: Option<usize> },
    Insert { name: usize, value: usize },
    Remove { name: ConfigNameOrPattern },
    RenameDuplicate { name: usize, default: Option<usize>, rename: usize },
}

/// A header named by an interned name or pattern.
#[derive(Debug, Clone, Copy, PartialEq, Eq, Structural)]
pub enum NameOrPatternId {
    Pattern(RegexId),
    Name(StringId),
}

/// A header rule of the schema.
#[derive(Debug, Clone, Copy, PartialEq, Eq, Structural)]
pub enum HeaderRuleRecord {
    /// Forward the header (renamed, if `rename_id`), or send `default_id`
    /// when it is absent.
    Forward { name_id: NameOrPatternId, default_id: Option<StringId>, rename_id: Option<StringId> },
    /// Insert the header with a value.
    Insert { name_id: StringId, value_id: StringId },
    /// Remove the header.
    Remove { name_id: NameOrPatternId },
    /// Forward the header under a second name as well.
    RenameDuplicate { name_id: StringId, default_id: Option<StringId>, rename_id: StringId },
}

/// The strings and patterns interned so far.
pub struct InternState {
    pub strings: Seq<Seq<char>>,
    pub regexps: Seq<Seq<char>>,
}

pub open spec fn intern_string(st: InternState, x: Seq<char>) -> (InternState, StringId) {
    let (s, id) = intern(st.strings, x);
    (InternState { strings: s, regexps: st.regexps }, StringId(id as u32))
}

pub open spec fn intern_opt(st: InternState, cfg: Seq<String>, x: Option<usize>) -> (InternState, Option<StringId>) {
    match x {
        None => (st, None),
        Some(k) => {
            let (st1, id) = intern_string(st, cfg[k as int]@);
            (st1, Some(id))
        },
    }
}

pub open spec fn intern_name(st: InternState, cfg: Seq<String>, n: ConfigNameOrPattern) -> (InternState, NameOrPatternId) {
    match n {
        ConfigNameOrPattern::Pattern(p) => {
            let (r, id) = intern(st.regexps, p@);
            (InternState { strings: st.strings, regexps: r }, NameOrPatternId::Pattern(RegexId(id as u32)))
        },
        ConfigNameOrPattern::Name(k) => {
            let (st1, id) = intern_string(st, cfg[k as int]@);
            (st1, NameOrPatternId::Name(id))
        },
    }
}

/// The schema's form of one configuration rule, interning its strings in
/// order (name, then default or value, then rename).
pub open spec fn convert_rule(st: InternState, cfg: Seq<String>, rule: ConfigHeaderRule) -> (InternState, HeaderRuleRecord) {
    match rule {
        ConfigHeaderRule::Forward { name, default, rename } => {
            let (st1, name_id) = intern_name(st, cfg, name);
            let (st2, default_id) = intern_opt(st1, cfg, default);
            let (st3, rename_id) = intern_opt(st2, cfg, rename);
            (st3, HeaderRuleRecord::Forward { name_id, default_id, rename_id })
        },
        ConfigHeaderRule::Insert { name, value } => {
            let (st1, name_id) = intern_string(st, cfg[name as int]@);
            let (st2, value_id) = intern_string(st1, cfg[value as int]@);
            (st2, HeaderRuleRecord::Insert { name_id, value_id })
        },
        ConfigHeaderRule::Remove { name } => {
            let (st1, name_id) = intern_name(st, cfg, name);
            (st1, HeaderRuleRecord::Remove { name_id })
        },
        ConfigHeaderRule::RenameDuplicate { name, default, rename } => {
            let (st1, name_id) = intern_string(st, cfg[name as int]@);
            let (st2, default_id) = intern_opt(st1, cfg, default);
            let (st3, rename_id) = intern_string(st2, cfg[rename as int]@);
            (st3, HeaderRuleRecord::RenameDuplicate { name_id, default_id, rename_id })
        },
    }
}

/// The schema's form of the configuration's rules, in order.
pub open spec fn convert_rules(st: InternState, cfg: Seq<String>, rules: Seq<ConfigHeaderRule>) -> (InternState, Seq<
    HeaderRuleRecord,
>)
    decreases rules.len(),
{
    if rules.len() == 0 {
        (st, Seq::empty())
    } else {
        let (st1, r0) = convert_rule(st, cfg, rules[0]);
        let (st2, rs) = convert_rules(st1, cfg, rules.drop_first());
        (st2, seq![r0] + rs)
    }
}

/// The configuration strings a rule refers to exist.
pub open spec fn rule_ids_valid(rule: ConfigHeaderRule, n: nat) -> bool {
    let name_ok = |x: ConfigNameOrPattern|
        match x {
            ConfigNameOrPattern::Name(k) => k < n,
            ConfigNameOrPattern::Pattern(_) => true,
        };
    let opt_ok = |x: Option<usize>|
        match x {
            Some(k) => k < n,
            None => true,
        };
    match rule {
        ConfigHeaderRule::Forward { name, default, rename } => name_ok(name) && opt_ok(default) && opt_ok(rename),
        ConfigHeaderRule::Insert { name, value } => name < n && value < n,
        ConfigHeaderRule::Remove { name } => name_ok(name),
        ConfigHeaderRule::RenameDuplicate { name, default, rename } => name < n && opt_ok(default) && rename < n,
    }
}

/// The schema being built: its strings and patterns.
#[derive(Debug)]
pub struct BuildContext {
    pub strings: Interner,
    pub regexps: Interner,
    pub urls: Interner,
}

impl BuildContext {
    pub open spec fn state(&self) -> InternState {
        InternState { strings: self.strings@, regexps: self.regexps@ }
    }

    /// A context holding the configuration's strings, and no pattern or
    /// URL.
    pub fn new(config_strings: Vec<String>) -> (r: BuildContext)
        ensures
            r.strings@ == string_views(config_strings@),
            r.regexps@.len() == 0,
            r.urls@.len() == 0,
    {
        let r = BuildContext {
            strings: Interner::from_vec(config_strings),
            regexps: Interner::from_vec(Vec::new()),
            urls: Interner::from_vec(Vec::new()),
        };
        assert(r.regexps@ =~= Seq::<Seq<char>>::empty());
        assert(r.urls@ =~= Seq::<Seq<char>>::empty());
        r
    }

    fn name_id(&mut self, cfg: &Vec<String>, name: &ConfigNameOrPattern) -> (r: NameOrPatternId)
        requires
            old(self).strings@.len() < u32::MAX,
            old(self).regexps@.len() < u32::MAX,
            name matches ConfigNameOrPattern::Name(k) ==> k < cfg@.len(),
        ensures
            (final(self).state(), r) == intern_name(old(self).state(), cfg@, *name),
            final(self).urls == old(self).urls,
    {
        match name {
            ConfigNameOrPattern::Pattern(p) => NameOrPatternId::Pattern(RegexId(self.regexps.get_or_new(p.as_str()))),
            ConfigNameOrPattern::Name(k) => NameOrPatternId::Name(StringId(self.strings.get_or_new(cfg[*k].as_str()))),
        }
    }

    fn opt_id(&mut self, cfg: &Vec<String>, x: Option<usize>) -> (r: Option<StringId>)
        requires
            old(self).strings@.len() < u32::MAX,
            x matches Some(k) ==> k < cfg@.len(),
        ensures
            (final(self).state(), r) == intern_opt(old(self).state(), cfg@, x),
            final(self).urls == old(self).urls,
    {
        match x {
            Some(k) => Some(StringId(self.strings.get_or_new(cfg[k].as_str()))),
            None => None,
        }
    }

    fn convert(&mut self, cfg: &Vec<String>, rule: &ConfigHeaderRule) -> (r: HeaderRuleRecord)
        requires
            old(self).strings@.len() + 3 < u32::MAX,
            old(self).regexps@.len() + 1 < u32::MAX,
            rule_ids_valid(*rule, cfg@.len()),
        ensures
            (final(self).state(), r) == convert_rule(old(self).state(), cfg@, *rule),
            final(self).strings@.len() <= old(self).strings@.len() + 3,
            final(self).regexps@.len() <= old(self).regexps@.len() + 1,
            final(self).urls == old(self).urls,
    {
        match rule {
            ConfigHeaderRule::Forward { name, default, rename } => {
                let name_id = self.name_id(cfg, name);
                let default_id = self.opt_id(cfg, *default);
                let rename_id = self.opt_id(cfg, *rename);
                HeaderRuleRecord::Forward { name_id, default_id, rename_id }
            },
            ConfigHeaderRule::Insert { name, value } => {
                let name_id = StringId(self.strings.get_or_new(cfg[*name].as_str()));
                let value_id = StringId(self.strings.get_or_new(cfg[*value].as_str()));
                HeaderRuleRecord::Insert { name_id, value_id }
            },
            ConfigHeaderRule::Remove { name } => {
                let name_id = self.name_id(cfg, name);
                HeaderRuleRecord::Remove { name_id }
            },
            ConfigHeaderRule::RenameDuplicate { name, default, rename } => {
                let name_id = StringId(self.strings.get_or_new(cfg[*name].as_str()));
                let default_id = self.opt_id(cfg, *default);
                let rename_id = StringId(self.strings.get_or_new(cfg[*rename].as_str()));
                HeaderRuleRecord::RenameDuplicate { name_id, default_id, rename_id }
            },
        }
    }

    /// The schema's header rules for the configuration's rules, in order;
    /// the names, values and patterns they hold are interned (each rule in
    /// turn: name, then default or value, then rename).
    pub fn header_rules(&mut self, config_strings: &Vec<String>, rules: &Vec<ConfigHeaderRule>) -> (r: Vec<
        HeaderRuleRecord,
    >)
        requires
            old(self).strings@.len() + 3 * rules@.len() < u32::MAX,
            old(self).regexps@.len() + rules@.len() < u32::MAX,
            forall|i: int| 0 <= i < rules@.len() ==> rule_ids_valid(#[trigger] rules@[i], config_strings@.len()),
        ensures
            (final(self).state(), r@) == convert_rules(old(self).state(), config_strings@, rules@),
            final(self).urls == old(self).urls,
    {
        let mut out: Vec<HeaderRuleRecord> = Vec::new();
        let mut i: usize = 0;
        let ghost st0 = self.state();
        assert(rules@.skip(0) =~= rules@);
        while i < rules.len()
            invariant
                i <= rules@.len(),
                self.urls == old(self).urls,
                self.strings@.len() <= st0.strings.len() + 3 * i,
                self.regexps@.len() <= st0.regexps.len() + i,
                st0.strings.len() + 3 * rules@.len() < u32::MAX,
                st0.regexps.len() + rules@.len() < u32::MAX,
                forall|k: int| 0 <= k < rules@.len() ==> rule_ids_valid(#[trigger] rules@[k], config_strings@.len()),
                convert_rules(st0, config_strings@, rules@) == ({
                    let (stf, rs) = convert_rules(self.state(), config_strings@, rules@.skip(i as int));
                    (stf, out@ + rs)
                }),
            decreases rules.len() - i,
        {
            let ghost before = self.state();
            let ghost rest = rules@.skip(i as int);
            assert(rest.drop_first() =~= rules@.skip(i + 1));
            assert(rest[0] == rules@[i as int]);
            let rec = self.convert(config_strings, &rules[i]);
            proof {
                let (stf, rs) = convert_rules(self.state(), config_strings@, rules@.skip(i + 1));
                assert(out@.push(rec) + rs =~= out@ + (seq![rec] + rs));
            }
            out.push(rec);
            i += 1;
        }
        assert(rules@.skip(i as int) =~= Seq::<ConfigHeaderRule>::empty());
        assert(out@ + Seq::<HeaderRuleRecord>::empty() =~= out@);
        out
    }
}

/// The id `id` refers, in `t`, to the string `x`.
pub open spec fn refers(t: Seq<Seq<char>>, id: nat, x: Seq<char>) -> bool {
    id < t.len() && t[id as int] == x
}

pub open spec fn str_resolves(t: InternState, cfg: Seq<String>, k: usize, id: StringId) -> bool {
    refers(t.strings, id.0 as nat, cfg[k as int]@)
}

pub open spec fn opt_resolves(t: InternState, cfg: Seq<String>, k: Option<usize>, id: Option<StringId>) -> bool {
    match (k, id) {
        (None, None) => true,
        (Some(k), Some(id)) => str_resolves(t, cfg, k, id),
        _ => false,
    }
}

pub open spec fn name_resolves(t: InternState, cfg: Seq<String>, n: ConfigNameOrPattern, id: NameOrPatternId) -> bool {
    match (n, id) {
        (ConfigNameOrPattern::Pattern(p), NameOrPatternId::Pattern(r)) => refers(t.regexps, r.0 as nat, p@),
        (ConfigNameOrPattern::Name(k), NameOrPatternId::Name(id)) => str_resolves(t, cfg, k, id),
        _ => false,
    }
}

/// The schema's rule `rec` names, through the strings and patterns of `t`,
/// what the configuration's rule names: the same kind of rule, the same
/// headers, values and patterns.
pub open spec fn record_resolves(t: InternState, cfg: Seq<String>, rule: ConfigHeaderRule, rec: HeaderRuleRecord) -> bool {
    match (rule, rec) {
        (
            ConfigHeaderRule::Forward { name, default, rename },
            HeaderRuleRecord::Forward { name_id, default_id, rename_id },
        ) => name_resolves(t, cfg, name, name_id) && opt_resolves(t, cfg, default, default_id) && opt_resolves(
            t,
            cfg,
            rename,
            rename_id,
        ),
        (ConfigHeaderRule::Insert { name, value }, HeaderRuleRecord::Insert { name_id, value_id }) => str_resolves(
            t,
            cfg,
            name,
            name_id,
        ) && str_resolves(t, cfg, value, value_id),
        (ConfigHeaderRule::Remove { name }, HeaderRuleRecord::Remove { name_id }) => name_resolves(t, cfg, name, name_id),
        (
            ConfigHeaderRule::RenameDuplicate { name, default, rename },
            HeaderRuleRecord::RenameDuplicate { name_id, default_id, rename_id },
        ) => str_resolves(t, cfg, name, name_id) && opt_resolves(t, cfg, default, default_id) && str_resolves(
            t,
            cfg,
            rename,
            rename_id,
        ),
        _ => false,
    }
}

/// `t` extends `s`: the strings and patterns of `s` stay where they are.
pub open spec fn extends(s: InternState, t: InternState) -> bool {
    s.strings.is_prefix_of(t.strings) && s.regexps.is_prefix_of(t.regexps)
}

pub open spec fn state_distinct(s: InternState) -> bool {
    distinct(s.strings) && distinct(s.regexps)
}

/// Interning moves no string and adds none twice: the strings before are a
/// prefix of those after, strings held once each stay so, and the id given
/// refers to the string interned (whether it was there or added).
pub proof fn lemma_intern(s: Seq<Seq<char>>, x: Seq<char>)
    ensures
        distinct(s) ==> distinct(intern(s, x).0),
        s.is_prefix_of(intern(s, x).0),
        refers(intern(s, x).0, intern(s, x).1, x),
{
    if exists|i: int| 0 <= i < s.len() && s[i] == x {
        let k = choose|i: int| 0 <= i < s.len() && s[i] == x;
        lemma_first_exists(s, x, k);
    } else if distinct(s) {
        let t = s.push(x);
        assert forall|i: int, j: int| 0 <= i < j < t.len() implies t[i] != t[j] by {
            if j == s.len() {
                assert(t[i] == s[i]);
            }
        }
    }
}

proof fn lemma_intern_string(st: InternState, x: Seq<char>)
    requires
        st.strings.len() < u32::MAX,
    ensures
        state_distinct(st) ==> state_distinct(intern_string(st, x).0),
        extends(st, intern_string(st, x).0),
        refers(intern_string(st, x).0.strings, intern_string(st, x).1.0 as nat, x),
        intern_string(st, x).0.strings.len() <= st.strings.len() + 1,
{
    lemma_intern(st.strings, x);
    lemma_intern_bound(st.strings, x);
}

/// The id given is below the number of strings afterwards; it fits a `u32`
/// when that number does.
proof fn lemma_intern_bound(s: Seq<Seq<char>>, x: Seq<char>)
    ensures
        intern(s, x).1 < intern(s, x).0.len(),
        intern(s, x).0.len() <= u32::MAX ==> (intern(s, x).1 as u32) as nat == intern(s, x).1,
{
    lemma_intern(s, x);
}

proof fn lemma_intern_opt(st: InternState, cfg: Seq<String>, x: Option<usize>)
    requires
        st.strings.len() < u32::MAX,
    ensures
        state_distinct(st) ==> state_distinct(intern_opt(st, cfg, x).0),
        extends(st, intern_opt(st, cfg, x).0),
        intern_opt(st, cfg, x).0.strings.len() <= st.strings.len() + 1,
        opt_resolves(intern_opt(st, cfg, x).0, cfg, x, intern_opt(st, cfg, x).1),
{
    if let Some(k) = x {
        lemma_intern_string(st, cfg[k as int]@);
        lemma_intern_bound(st.strings, cfg[k as int]@);
    }
}

proof fn lemma_intern_name(st: InternState, cfg: Seq<String>, n: ConfigNameOrPattern)
    requires
        st.strings.len() < u32::MAX,
        st.regexps.len() < u32::MAX,
    ensures
        state_distinct(st) ==> state_distinct(intern_name(st, cfg, n).0),
        extends(st, intern_name(st, cfg, n).0),
        intern_name(st, cfg, n).0.strings.len() <= st.strings.len() + 1,
        intern_name(st, cfg, n).0.regexps.len() <= st.regexps.len() + 1,
        name_resolves(intern_name(st, cfg, n).0, cfg, n, intern_name(st, cfg, n).1),
{
    match n {
        ConfigNameOrPattern::Pattern(p) => {
            lemma_intern(st.regexps, p@);
            lemma_intern_bound(st.regexps, p@);
        },
        ConfigNameOrPattern::Name(k) => {
            lemma_intern_string(st, cfg[k as int]@);
            lemma_intern_bound(st.strings, cfg[k as int]@);
        },
    }
}

proof fn lemma_str_extend(s: InternState, t: InternState, cfg: Seq<String>, k: usize, id: StringId)
    requires
        str_resolves(s, cfg, k, id),
        extends(s, t),
    ensures
        str_resolves(t, cfg, k, id),
{
    assert(t.strings[id.0 as int] == s.strings[id.0 as int]);
}

proof fn lemma_opt_extend(s: InternState, t: InternState, cfg: Seq<String>, k: Option<usize>, id: Option<StringId>)
    requires
        opt_resolves(s, cfg, k, id),
        extends(s, t),
    ensures
        opt_resolves(t, cfg, k, id),
{
    if let (Some(k), Some(id)) = (k, id) {
        lemma_str_extend(s, t, cfg, k, id);
    }
}

proof fn lemma_name_extend(s: InternState, t: InternState, cfg: Seq<String>, n: ConfigNameOrPattern, id: NameOrPatternId)
    requires
        name_resolves(s, cfg, n, id),
        extends(s, t),
    ensures
        name_resolves(t, cfg, n, id),
{
    match (n, id) {
        (ConfigNameOrPattern::Pattern(p), NameOrPatternId::Pattern(r)) => {
            assert(t.regexps[r.0 as int] == s.regexps[r.0 as int]);
        },
        (ConfigNameOrPattern::Name(k), NameOrPatternId::Name(i)) => {
            lemma_str_extend(s, t, cfg, k, i);
        },
        _ => {},
    }
}

proof fn lemma_resolves_extend(s: InternState, t: InternState, cfg: Seq<String>, rule: ConfigHeaderRule, rec: HeaderRuleRecord)
    requires
        record_resolves(s, cfg, rule, rec),
        extends(s, t),
    ensures
        record_resolves(t, cfg, rule, rec),
{
    match (rule, rec) {
        (
            ConfigHeaderRule::Forward { name, default, rename },
            HeaderRuleRecord::Forward { name_id, default_id, rename_id },
        ) => {
            lemma_name_extend(s, t, cfg, name, name_id);
            lemma_opt_extend(s, t, cfg, default, default_id);
            lemma_opt_extend(s, t, cfg, rename, rename_id);
        },
        (ConfigHeaderRule::Insert { name, value }, HeaderRuleRecord::Insert { name_id, value_id }) => {
            lemma_str_extend(s, t, cfg, name, name_id);
            lemma_str_extend(s, t, cfg, value, value_id);
        },
        (ConfigHeaderRule::Remove { name }, HeaderRuleRecord::Remove { name_id }) => {
            lemma_name_extend(s, t, cfg, name, name_id);
        },
        (
            ConfigHeaderRule::RenameDuplicate { name, default, rename },
            HeaderRuleRecord::RenameDuplicate { name_id, default_id, rename_id },
        ) => {
            lemma_str_extend(s, t, cfg, name, name_id);
            lemma_opt_extend(s, t, cfg, default, default_id);
            lemma_str_extend(s, t, cfg, rename, rename_id);
        },
        _ => {},
    }
}

proof fn lemma_extends_trans(a: InternState, b: InternState, c: InternState)
    requires
        extends(a, b),
        extends(b, c),
    ensures
        extends(a, c),
{
    assert(a.strings.is_prefix_of(c.strings)) by {
        assert forall|i: int| 0 <= i < a.strings.len() implies a.strings[i] == c.strings[i] by {
            assert(a.strings[i] == b.strings[i]);
        }
    }
    assert(a.regexps.is_prefix_of(c.regexps)) by {
        assert forall|i: int| 0 <= i < a.regexps.len() implies a.regexps[i] == c.regexps[i] by {
            assert(a.regexps[i] == b.regexps[i]);
        }
    }
}

/// The number of strings and patterns a rule can add.
pub open spec fn room(st: InternState) -> bool {
    st.strings.len() + 3 <= u32::MAX && st.regexps.len() + 1 <= u32::MAX
}

proof fn lemma_convert_rule(st: InternState, cfg: Seq<String>, rule: ConfigHeaderRule)
    requires
        room(st),
    ensures
        state_distinct(st) ==> state_distinct(convert_rule(st, cfg, rule).0),
        extends(st, convert_rule(st, cfg, rule).0),
        record_resolves(convert_rule(st, cfg, rule).0, cfg, rule, convert_rule(st, cfg, rule).1),
        convert_rule(st, cfg, rule).0.strings.len() <= st.strings.len() + 3,
        convert_rule(st, cfg, rule).0.regexps.len() <= st.regexps.len() + 1,
{
    match rule {
        ConfigHeaderRule::Forward { name, default, rename } => {
            let (st1, name_id) = intern_name(st, cfg, name);
            lemma_intern_name(st, cfg, name);
            let (st2, default_id) = intern_opt(st1, cfg, default);
            lemma_intern_opt(st1, cfg, default);
            let (st3, rename_id) = intern_opt(st2, cfg, rename);
            lemma_intern_opt(st2, cfg, rename);
            lemma_extends_trans(st1, st2, st3);
            lemma_extends_trans(st, st1, st3);
            lemma_name_extend(st1, st3, cfg, name, name_id);
            lemma_opt_extend(st2, st3, cfg, default, default_id);
        },
        ConfigHeaderRule::Insert { name, value } => {
            let (st1, name_id) = intern_string(st, cfg[name as int]@);
            lemma_intern_string(st, cfg[name as int]@);
            let (st2, value_id) = intern_string(st1, cfg[value as int]@);
            lemma_intern_string(st1, cfg[value as int]@);
            lemma_extends_trans(st, st1, st2);
            lemma_str_extend(st1, st2, cfg, name, name_id);
        },
        ConfigHeaderRule::Remove { name } => {
            lemma_intern_name(st, cfg, name);
        },
        ConfigHeaderRule::RenameDuplicate { name, default, rename } => {
            let (st1, name_id) = intern_string(st, cfg[name as int]@);
            lemma_intern_string(st, cfg[name as int]@);
            let (st2, default_id) = intern_opt(st1, cfg, default);
            lemma_intern_opt(st1, cfg, default);
            let (st3, rename_id) = intern_string(st2, cfg[rename as int]@);
            lemma_intern_string(st2, cfg[rename as int]@);
            lemma_extends_trans(st1, st2, st3);
            lemma_extends_trans(st, st1, st3);
            lemma_str_extend(st1, st3, cfg, name, name_id);
            lemma_opt_extend(st2, st3, cfg, default, default_id);
        },
    }
}

/// The schema's header rules name what the configuration's rules name:
/// rule by rule, each id refers, in the strings and patterns the context
/// holds afterwards, to the configuration string or pattern it was made
/// for, whether or not the configuration's strings repeat; the context
/// keeps those it had where they were, and adds none it holds already (so
/// one that held each once still does).
pub proof fn lemma_header_rules_resolve(st: InternState, cfg: Seq<String>, rules: Seq<ConfigHeaderRule>)
    requires
        st.strings.len() + 3 * rules.len() < u32::MAX,
        st.regexps.len() + rules.len() < u32::MAX,
    ensures
        state_distinct(st) ==> state_distinct(convert_rules(st, cfg, rules).0),
        extends(st, convert_rules(st, cfg, rules).0),
        convert_rules(st, cfg, rules).1.len() == rules.len(),
        forall|i: int|
            0 <= i < rules.len() ==> record_resolves(
                convert_rules(st, cfg, rules).0,
                cfg,
                rules[i],
                #[trigger] convert_rules(st, cfg, rules).1[i],
            ),
    decreases rules.len(),
{
    if rules.len() > 0 {
        let (st1, r0) = convert_rule(st, cfg, rules[0]);
        lemma_convert_rule(st, cfg, rules[0]);
        lemma_header_rules_resolve(st1, cfg, rules.drop_first());
        let (st2, rs) = convert_rules(st1, cfg, rules.drop_first());
        lemma_resolves_extend(st1, st2, cfg, rules[0], r0);
        lemma_extends_trans(st, st1, st2);
        assert forall|i: int| 0 <= i < rules.len() implies record_resolves(
            st2,
            cfg,
            rules[i],
            #[trigger] convert_rules(st, cfg, rules).1[i],
        ) by {
            if i > 0 {
                assert(rules[i] == rules.drop_first()[i - 1]);
                assert(convert_rules(st, cfg, rules).1[i] == rs[i - 1]);
            }
        }
    }
}

/// How long (in milliseconds) the gateway waits for a request when the
/// configuration sets no timeout.
pub const DEFAULT_GATEWAY_TIMEOUT_MS: u64 = 30_000;

/// Refers to a header rule of the schema.
#[derive(Debug, Clone, Copy, PartialEq, Eq, Structural, PartialOrd, Ord, Hash)]
pub struct HeaderRuleId(pub u32);

/// What the schema takes from the configuration besides its graph: the
/// strings and header rules, the settings it reads, and the retry,
/// authentication and operation limit settings it passes on unchanged.
#[derive(Debug)]
pub struct SchemaConfig<R, A, L> {
    /// The configuration's strings, which rules refer to.
    pub strings: Vec<String>,
    pub header_rules: Vec<ConfigHeaderRule>,
    /// The rules applied to every subgraph, by position in `header_rules`.
    pub default_header_rules: Vec<u32>,
    pub timeout_ms: Option<u64>,
    pub disable_introspection: bool,
    pub retry: R,
    pub auth: A,
    pub operation_limits: L,
}

/// The schema's settings.
#[derive(Debug)]
pub struct Settings<R, A, L> {
    pub timeout_ms: u64,
    pub default_header_rules: Vec<HeaderRuleId>,
    pub auth_config: A,
    pub operation_limits: L,
    pub disable_introspection: bool,
    pub retry: R,
}

/// What building the schema ends with: the subgraphs, graph and version it
/// was given, its strings, patterns, URLs and header rules, and its
/// settings.
#[derive(Debug)]
pub struct FinalizedSchema<S, G, V, R, A, L> {
    pub subgraphs: S,
    pub graph: G,
    pub version: V,
    pub strings: Vec<String>,
    pub regexps: Vec<String>,
    pub urls: Vec<String>,
    pub header_rules: Vec<HeaderRuleRecord>,
    pub settings: Settings<R, A, L>,
}

impl BuildContext {
    /// The schema: the subgraphs, graph and version as given; the strings,
    /// patterns and URLs of the context, and the header rules as
    /// `header_rules` gives them; as settings the configured timeout or the
    /// default one, the default rules by id, whether introspection is
    /// disabled, and the configuration's retry, authentication and
    /// operation limit settings.
    pub fn finalize<S, G, V, R, A, L>(self, subgraphs: S, graph: G, config: SchemaConfig<R, A, L>, version: V) -> (r:
        FinalizedSchema<S, G, V, R, A, L>)
        requires
            self.strings@.len() + 3 * config.header_rules@.len() < u32::MAX,
            self.regexps@.len() + config.header_rules@.len() < u32::MAX,
            forall|i: int|
                0 <= i < config.header_rules@.len() ==> rule_ids_valid(
                    #[trigger] config.header_rules@[i],
                    config.strings@.len(),
                ),
        ensures
            r.subgraphs == subgraphs,
            r.graph == graph,
            r.version == version,
            ({
                let (st, rules) = convert_rules(self.state(), config.strings@, config.header_rules@);
                &&& string_views(r.strings@) == st.strings
                &&& string_views(r.regexps@) == st.regexps
                &&& r.header_rules@ == rules
            }),
            string_views(r.urls@) == self.urls@,
            r.settings.timeout_ms == (match config.timeout_ms {
                Some(t) => t,
                None => DEFAULT_GATEWAY_TIMEOUT_MS,
            }),
            r.settings.default_header_rules@.len() == config.default_header_rules@.len(),
            forall|i: int|
                0 <= i < config.default_header_rules@.len() ==> (#[trigger] r.settings.default_header_rules@[i]).0
                    == config.default_header_rules@[i],
            r.settings.disable_introspection == config.disable_introspection,
            r.settings.retry == config.retry,
            r.settings.auth_config == config.auth,
            r.settings.operation_limits == config.operation_limits,
    {
        let mut ctx = self;
        let header_rules = ctx.header_rules(&config.strings, &config.header_rules);
        let mut default_header_rules: Vec<HeaderRuleId> = Vec::new();
        let mut i: usize = 0;
        while i < config.default_header_rules.len()
            invariant
                i <= config.default_header_rules@.len(),
                default_header_rules@.len() == i,
                forall|k: int| 0 <= k < i ==> (#[trigger] default_header_rules@[k]).0 == config.default_header_rules@[k],
            decreases config.default_header_rules.len() - i,
        {
            default_header_rules.push(HeaderRuleId(config.default_header_rules[i]));
            i += 1;
        }
        let timeout_ms = match config.timeout_ms {
            Some(t) => t,
            None => DEFAULT_GATEWAY_TIMEOUT_MS,
        };
        let disable_introspection = config.disable_introspection;
        FinalizedSchema {
            subgraphs,
            graph,
            version,
            strings: ctx.strings.into_vec(),
            regexps: ctx.regexps.into_vec(),
            urls: ctx.urls.into_vec(),
            header_rules,
            settings: Settings {
                timeout_ms,
                default_header_rules,
                auth_config: config.auth,
                operation_limits: config.operation_limits,
                disable_introspection,
                retry: config.retry,
            },
        }
    }
}

} // verus!
