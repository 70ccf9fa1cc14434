//! Placing the entries of a PostgreSQL schema dump in DDL script files, by
//! an ordered set of rules: the first rule that matches an entry names its
//! file.

use vstd::prelude::*;
use crate::pattern::{
    capture_groups, compile_pattern, groups_view, pattern_compiles, pattern_groups,
    CompiledPattern,
};
use crate::text::{replace_all, replace_text};

verus! {

/// What `{name}` stands for in the patterns of a rule: a word of word
/// characters and dashes, or words with dashes and spaces in double quotes.
pub const NAME_PATTERN: &'static str = r#"([[:word:]-]+|\"[[:word:]- ]+\")"#;

/// A rule placing dump entries in a DDL script file.
#[derive(Debug, Clone)]
pub struct PgDdlRule {
    /// Whether the entries the rule takes have an empty namespace.
    pub empty_namespace: bool,
    /// Pattern for the entry's description (the object type); `.*` when absent.
    pub desc_pattern: Option<String>,
    /// Pattern for the entry's tag (the object name, subtype); `.*` when absent.
    pub tag_pattern: Option<String>,
    /// Handlebars template of the file name.
    pub filename: String,
}

/// An entry of a schema dump's table of contents, as far as the rules read it.
#[derive(Debug, Clone)]
pub struct DdlEntry {
    /// The schema of the object; empty for objects outside any schema.
    pub namespace: String,
    /// The object type, such as `TABLE` or `FUNCTION`.
    pub desc: String,
    /// The object name.
    pub tag: String,
}

/// A rule's pattern, or `.*` when it has none, with each `{name}` replaced by
/// `NAME_PATTERN`.
pub open spec fn expanded_pattern(p: Option<String>) -> Seq<char> {
    let source = match p {
        Some(s) => s@,
        None => ".*"@,
    };
    replace_all(source, "{name}"@, NAME_PATTERN@)
}

/// Both patterns of the rule compile.
pub open spec fn rule_compiles(rule: PgDdlRule) -> bool {
    pattern_compiles(expanded_pattern(rule.desc_pattern)) && pattern_compiles(
        expanded_pattern(rule.tag_pattern),
    )
}

/// Whether `handlebars::Handlebars::register_template_string` accepts the template.
pub uninterp spec fn template_valid(template: Seq<char>) -> bool;

/// The rule can be compiled without fault: when both patterns compile, so
/// does the file name template.
pub open spec fn rule_usable(rule: PgDdlRule) -> bool {
    rule_compiles(rule) ==> template_valid(rule.filename@)
}

/// A rule, compiled, seen through its patterns.
pub struct MatcherView {
    pub empty_namespace: bool,
    pub desc_pattern: Seq<char>,
    pub tag_pattern: Seq<char>,
    pub template: Seq<char>,
}

/// What compiling a rule gives.
pub open spec fn matcher_of(rule: PgDdlRule) -> MatcherView {
    MatcherView {
        empty_namespace: rule.empty_namespace,
        desc_pattern: expanded_pattern(rule.desc_pattern),
        tag_pattern: expanded_pattern(rule.tag_pattern),
        template: rule.filename@,
    }
}

/// A rule, compiled.
pub struct PgDdlMatcher {
    empty_namespace: bool,
    desc_regex: CompiledPattern,
    tag_regex: CompiledPattern,
    filename_template: String,
}

impl View for PgDdlMatcher {
    type V = MatcherView;

    closed spec fn view(&self) -> MatcherView {
        MatcherView {
            empty_namespace: self.empty_namespace,
            desc_pattern: self.desc_regex@,
            tag_pattern: self.tag_regex@,
            template: self.filename_template@,
        }
    }
}

/// Why a rule that took an entry gave no file name.
#[derive(Debug)]
pub enum DdlMatchError {
    /// A capture group of one of the rule's patterns took no part in the match.
    UnmatchedGroup,
    /// The file name template could not be rendered; the text says why.
    Render(String),
}

/// The kind of a `DdlMatchError`.
pub enum DdlMatchErrorView {
    UnmatchedGroup,
    Render,
}

impl View for DdlMatchError {
    type V = DdlMatchErrorView;

    open spec fn view(&self) -> DdlMatchErrorView {
        match self {
            DdlMatchError::UnmatchedGroup => DdlMatchErrorView::UnmatchedGroup,
            DdlMatchError::Render(_) => DdlMatchErrorView::Render,
        }
    }
}

/// What rendering the file name template gives, registered under its own
/// text in a new `handlebars::Handlebars` registry, with the data `namespace`,
/// `desc_parts` and `tag_parts`; `None` when registering or rendering fails.
pub uninterp spec fn rendered_filename(
    template: Seq<char>,
    namespace: Seq<char>,
    desc_parts: Seq<Seq<char>>,
    tag_parts: Seq<Seq<char>>,
) -> Option<Seq<char>>;

/// Texts seen through their views.
pub open spec fn texts(v: Seq<String>) -> Seq<Seq<char>> {
    v.map_values(|s: String| s@)
}

/// Registers the template, under its own text, in a new
/// `handlebars::Handlebars` registry with `register_template_string`.
/// Trusted: it succeeds exactly when `template_valid` holds.
#[verifier::external_body]
fn template_compiles(template: &str) -> (r: bool)
    ensures
        r == template_valid(template@),
{
    handlebars::Handlebars::new().register_template_string(template, template).is_ok()
}

/// Renders the file name template with `handlebars::Handlebars::render`,
/// the template registered under its own text in a new registry, with an
/// object of the fields `namespace`, `desc_parts` and `tag_parts` as data.
/// Trusted: the result is `rendered_filename` of the arguments. The text of
/// an error is the outside error's message, of which nothing is stated.
#[verifier::external_body]
fn render_filename(
    template: &str,
    namespace: &str,
    desc_parts: &Vec<String>,
    tag_parts: &Vec<String>,
) -> (r: Result<String, String>)
    ensures
        r is Ok <==> rendered_filename(template@, namespace@, texts(desc_parts@), texts(tag_parts@)) is Some,
        r matches Ok(f) ==> rendered_filename(template@, namespace@, texts(desc_parts@), texts(tag_parts@))
            == Some(f@),
{
    let mut registry = handlebars::Handlebars::new();
    if let Err(e) = registry.register_template_string(template, template) {
        return Err(e.to_string());
    }
    let data: handlebars::JsonValue = vec![
        ("namespace", handlebars::JsonValue::from(namespace)),
        ("desc_parts", handlebars::JsonValue::from(desc_parts.clone())),
        ("tag_parts", handlebars::JsonValue::from(tag_parts.clone())),
    ].into_iter().collect();
    registry.render(template, &data).map_err(|e| e.to_string())
}

/// Every group took part in the match.
pub open spec fn all_present(g: Seq<Option<Seq<char>>>) -> bool {
    forall|i: int| 0 <= i < g.len() ==> (#[trigger] g[i]) is Some
}

/// The texts of the groups.
pub open spec fn present(g: Seq<Option<Seq<char>>>) -> Seq<Seq<char>> {
    g.map_values(|o: Option<Seq<char>>| o->0)
}

/// What a compiled rule gives for an entry: nothing when the namespace is not
/// as the rule asks or a pattern does not match; else the rendered file name,
/// or why there is none.
pub open spec fn rule_outcome(m: MatcherView, e: DdlEntry) -> Result<Option<Seq<char>>, DdlMatchErrorView> {
    if m.empty_namespace != (e.namespace@.len() == 0) {
        Ok(None)
    } else {
        match (pattern_groups(m.desc_pattern, e.desc@), pattern_groups(m.tag_pattern, e.tag@)) {
            (Some(dg), Some(tg)) => if all_present(dg) && all_present(tg) {
                match rendered_filename(m.template, e.namespace@, present(dg), present(tg)) {
                    Some(f) => Ok(Some(f)),
                    None => Err(DdlMatchErrorView::Render),
                }
            } else {
                Err(DdlMatchErrorView::UnmatchedGroup)
            },
            _ => Ok(None),
        }
    }
}

/// The texts of all captured groups, when each took part in the match.
fn all_groups(groups: Vec<Option<String>>) -> (r: Option<Vec<String>>)
    ensures
        match r {
            Some(parts) => all_present(groups_view(Some(groups))->0) && texts(parts@) == present(
                groups_view(Some(groups))->0,
            ),
            None => !all_present(groups_view(Some(groups))->0),
        },
{
    let ghost g = groups_view(Some(groups))->0;
    let mut parts: Vec<String> = Vec::new();
    let mut i: usize = 0;
    while i < groups.len()
        invariant
            g == groups_view(Some(groups))->0,
            i <= groups@.len(),
            parts@.len() == i,
            forall|k: int| 0 <= k < i ==> (#[trigger] g[k]) is Some && parts@[k]@ == g[k]->0,
        decreases groups@.len() - i,
    {
        match &groups[i] {
            Some(s) => {
                parts.push(s.clone());
            },
            None => {
                assert(g[i as int] is None);
                return None;
            },
        }
        i = i + 1;
    }
    assert(texts(parts@) =~= present(g));
    Some(parts)
}

/// A result of a match seen through its views.
pub open spec fn outcome_view(r: Result<Option<String>, DdlMatchError>) -> Result<Option<Seq<char>>, DdlMatchErrorView> {
    match r {
        Ok(Some(f)) => Ok(Some(f@)),
        Ok(None) => Ok(None),
        Err(e) => Err(e@),
    }
}

impl PgDdlMatcher {
    /// Compiles a rule: its patterns, `.*` when absent, with `{name}` expanded.
    fn new(rule: &PgDdlRule) -> (r: Result<PgDdlMatcher, regex::Error>)
        requires
            rule_usable(*rule),
        ensures
            r is Ok <==> rule_compiles(*rule),
            r matches Ok(m) ==> m@ == matcher_of(*rule),
    {
        let desc_pattern = match &rule.desc_pattern {
            Some(p) => expand_name(p.as_str()),
            None => expand_name(".*"),
        };
        let desc_regex = match compile_pattern(desc_pattern.as_str()) {
            Ok(p) => p,
            Err(e) => {
                return Err(e);
            },
        };
        let tag_pattern = match &rule.tag_pattern {
            Some(p) => expand_name(p.as_str()),
            None => expand_name(".*"),
        };
        let tag_regex = match compile_pattern(tag_pattern.as_str()) {
            Ok(p) => p,
            Err(e) => {
                return Err(e);
            },
        };
        Ok(
            PgDdlMatcher {
                empty_namespace: rule.empty_namespace,
                desc_regex,
                tag_regex,
                filename_template: rule.filename.clone(),
            },
        )
    }

    /// The file name the rule gives an entry, if it takes it.
    fn matches(&self, entry: &DdlEntry) -> (r: Result<Option<String>, DdlMatchError>)
        ensures
            outcome_view(r) == rule_outcome(self@, *entry),
    {
        if self.empty_namespace != entry.namespace.as_str().is_empty() {
            return Ok(None);
        }
        let desc_groups = match capture_groups(&self.desc_regex, entry.desc.as_str()) {
            Some(g) => g,
            None => {
                return Ok(None);
            },
        };
        let tag_groups = match capture_groups(&self.tag_regex, entry.tag.as_str()) {
            Some(g) => g,
            None => {
                return Ok(None);
            },
        };
        let desc_parts = match all_groups(desc_groups) {
            Some(p) => p,
            None => {
                return Err(DdlMatchError::UnmatchedGroup);
            },
        };
        let tag_parts = match all_groups(tag_groups) {
            Some(p) => p,
            None => {
                return Err(DdlMatchError::UnmatchedGroup);
            },
        };
        match render_filename(
            self.filename_template.as_str(),
            entry.namespace.as_str(),
            &desc_parts,
            &tag_parts,
        ) {
            Ok(f) => Ok(Some(f)),
            Err(message) => Err(DdlMatchError::Render(message)),
        }
    }
}

/// A rule's pattern with each `{name}` replaced by `NAME_PATTERN`.
pub fn expand_name(pattern: &str) -> (r: String)
    ensures
        r@ == replace_all(pattern@, "{name}"@, NAME_PATTERN@),
{
    proof {
        reveal_strlit("{name}");
    }
    replace_text(pattern, "{name}", NAME_PATTERN)
}

/// The matchers that compiling the rules in order gives: one for each rule
/// whose patterns compile.
pub open spec fn compiled_rules(rules: Seq<PgDdlRule>) -> Seq<MatcherView>
    decreases rules.len(),
{
    if rules.len() == 0 {
        Seq::empty()
    } else if rule_compiles(rules.last()) {
        compiled_rules(rules.drop_last()).push(matcher_of(rules.last()))
    } else {
        compiled_rules(rules.drop_last())
    }
}

/// The number of rules whose patterns do not compile.
pub open spec fn refused_rules(rules: Seq<PgDdlRule>) -> nat
    decreases rules.len(),
{
    if rules.len() == 0 {
        0
    } else if rule_compiles(rules.last()) {
        refused_rules(rules.drop_last())
    } else {
        refused_rules(rules.drop_last()) + 1
    }
}

/// The file name the first rule from index `i` on that takes the entry gives
/// it, and why each rule before it that took the entry gave none.
pub open spec fn ddl_search(ms: Seq<MatcherView>, e: DdlEntry, i: int) -> (
    Option<Seq<char>>,
    Seq<DdlMatchErrorView>,
)
    decreases ms.len() - i,
{
    if i < 0 || i >= ms.len() {
        (None, Seq::empty())
    } else {
        match rule_outcome(ms[i], e) {
            Ok(Some(f)) => (Some(f), Seq::empty()),
            Ok(None) => ddl_search(ms, e, i + 1),
            Err(err) => {
                let rest = ddl_search(ms, e, i + 1);
                (rest.0, seq![err] + rest.1)
            },
        }
    }
}

/// Errors seen through their views.
pub open spec fn error_views(v: Seq<DdlMatchError>) -> Seq<DdlMatchErrorView> {
    v.map_values(|e: DdlMatchError| e@)
}

/// The rules that place the entries of a PostgreSQL schema dump in DDL
/// script files.
pub struct DdlConfig {
    postgres_ddl_ruleset: Vec<PgDdlMatcher>,
}

impl View for DdlConfig {
    type V = Seq<MatcherView>;

    closed spec fn view(&self) -> Seq<MatcherView> {
        self.postgres_ddl_ruleset@.map_values(|m: PgDdlMatcher| m@)
    }
}

impl DdlConfig {
    /// A configuration without rules.
    pub fn new() -> (r: DdlConfig)
        ensures
            r@ == Seq::<MatcherView>::empty(),
    {
        let r = DdlConfig { postgres_ddl_ruleset: Vec::new() };
        assert(r@ =~= Seq::<MatcherView>::empty());
        r
    }

    /// Compiles the rules in order and adds them after the rules there are; a
    /// rule whose pattern does not compile is left out, and its error
    /// returned, in order.
    pub fn push_postgres_ddl_ruleset(&mut self, ruleset: Vec<PgDdlRule>) -> (errors: Vec<regex::Error>)
        requires
            forall|i: int| 0 <= i < ruleset@.len() ==> rule_usable(#[trigger] ruleset@[i]),
        ensures
            final(self)@ == old(self)@ + compiled_rules(ruleset@),
            errors@.len() == refused_rules(ruleset@),
    {
        let mut errors: Vec<regex::Error> = Vec::new();
        let mut i: usize = 0;
        assert(ruleset@.take(0) =~= Seq::<PgDdlRule>::empty());
        assert(old(self)@ + Seq::<MatcherView>::empty() =~= old(self)@);
        while i < ruleset.len()
            invariant
                i <= ruleset@.len(),
                forall|k: int| 0 <= k < ruleset@.len() ==> rule_usable(#[trigger] ruleset@[k]),
                self@ == old(self)@ + compiled_rules(ruleset@.take(i as int)),
                errors@.len() == refused_rules(ruleset@.take(i as int)),
            decreases ruleset@.len() - i,
        {
            let ghost before = self@;
            assert(ruleset@.take(i + 1).drop_last() =~= ruleset@.take(i as int));
            assert(ruleset@.take(i + 1).last() == ruleset@[i as int]);
            match PgDdlMatcher::new(&ruleset[i]) {
                Ok(m) => {
                    self.postgres_ddl_ruleset.push(m);
                    assert(self@ =~= before.push(m@));
                },
                Err(e) => {
                    errors.push(e);
                },
            }
            i = i + 1;
        }
        assert(ruleset@.take(ruleset@.len() as int) =~= ruleset@);
        errors
    }

    /// Whether a rule can be compiled without fault.
    fn rule_is_usable(rule: &PgDdlRule) -> (r: bool)
        ensures
            r == rule_usable(*rule),
    {
        let desc_pattern = match &rule.desc_pattern {
            Some(p) => expand_name(p.as_str()),
            None => expand_name(".*"),
        };
        let tag_pattern = match &rule.tag_pattern {
            Some(p) => expand_name(p.as_str()),
            None => expand_name(".*"),
        };
        let compiles = compile_pattern(desc_pattern.as_str()).is_ok() && compile_pattern(
            tag_pattern.as_str(),
        ).is_ok();
        !compiles || template_compiles(rule.filename.as_str())
    }

    /// Adds the rules as `push_postgres_ddl_ruleset` does when each of them
    /// can be compiled without fault; otherwise leaves the configuration as
    /// it is and gives the index of the first rule whose patterns compile
    /// while its file name template does not.
    pub fn try_push_postgres_ddl_ruleset(&mut self, ruleset: Vec<PgDdlRule>) -> (r: Result<
        Vec<regex::Error>,
        usize,
    >)
        ensures
            match r {
                Ok(errors) => (forall|i: int| 0 <= i < ruleset@.len() ==> rule_usable(#[trigger] ruleset@[i]))
                    && final(self)@ == old(self)@ + compiled_rules(ruleset@) && errors@.len()
                    == refused_rules(ruleset@),
                Err(i) => i < ruleset@.len() && !rule_usable(ruleset@[i as int]) && (forall|k: int|
                    0 <= k < i ==> rule_usable(#[trigger] ruleset@[k])) && final(self)@ == old(self)@,
            },
    {
        let mut i: usize = 0;
        while i < ruleset.len()
            invariant
                i <= ruleset@.len(),
                forall|k: int| 0 <= k < i ==> rule_usable(#[trigger] ruleset@[k]),
            decreases ruleset@.len() - i,
        {
            if !Self::rule_is_usable(&ruleset[i]) {
                return Err(i);
            }
            i = i + 1;
        }
        Ok(self.push_postgres_ddl_ruleset(ruleset))
    }

    /// The file name of the first rule that takes the entry, if any, and why
    /// each rule before it that took the entry gave none.
    pub fn pgddl_filename(&self, entry: &DdlEntry) -> (r: (Option<String>, Vec<DdlMatchError>))
        ensures
            (match r.0 {
                Some(f) => Some(f@),
                None => None,
            }, error_views(r.1@)) == ddl_search(self@, *entry, 0),
    {
        let mut errors: Vec<DdlMatchError> = Vec::new();
        let mut i: usize = 0;
        assert(error_views(errors@) + ddl_search(self@, *entry, 0).1 =~= ddl_search(self@, *entry, 0).1);
        while i < self.postgres_ddl_ruleset.len()
            invariant
                i <= self@.len(),
                self@.len() == self.postgres_ddl_ruleset@.len(),
                ddl_search(self@, *entry, 0).0 == ddl_search(self@, *entry, i as int).0,
                ddl_search(self@, *entry, 0).1 == error_views(errors@) + ddl_search(
                    self@,
                    *entry,
                    i as int,
                ).1,
            decreases self@.len() - i,
        {
            let ghost before = errors@;
            let ghost rest = ddl_search(self@, *entry, i + 1);
            assert(self@[i as int] == self.postgres_ddl_ruleset@[i as int]@);
            match self.postgres_ddl_ruleset[i].matches(entry) {
                Ok(Some(f)) => {
                    assert(error_views(errors@) + Seq::<DdlMatchErrorView>::empty() =~= error_views(errors@));
                    return (Some(f), errors);
                },
                Ok(None) => {},
                Err(e) => {
                    errors.push(e);
                    assert(error_views(errors@) =~= error_views(before).push(e@));
                    assert(error_views(before) + (seq![e@] + rest.1) =~= error_views(errors@) + rest.1);
                },
            }
            i = i + 1;
        }
        assert(error_views(errors@) + Seq::<DdlMatchErrorView>::empty() =~= error_views(errors@));
        (None, errors)
    }
}

} // verus!
