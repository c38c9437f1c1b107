//! Rules: what a configuration has to satisfy beyond its schema. A rule is
//! a predicate over the configuration of the package and those of other
//! packages, with the words that are said where it does not hold.

use vstd::prelude::*;
use crate::config::configure::selected;
use crate::config::spec::ConfigSelector;
use crate::config::value::{
    clone_config, config_view, documents, same_json, Json, JsonView, Property,
};
use crate::error::{Error, ErrorKind};
use crate::ordered_map::{lookup, position_by_keys, position_finds, OrderedMap};
use crate::text::texts;

verus! {

/// A value that a rule reads out of a configuration: of the package's own
/// where no package is named, else of the package that is named.
pub struct RuleVar {
    pub package: Option<String>,
    pub path: ConfigSelector,
}

/// A value that a rule speaks of.
pub enum RuleValue {
    /// The document as it stands.
    Literal(Json),
    /// What is read out of a configuration.
    Var(RuleVar),
}

/// A predicate over configurations.
pub enum ConfigRule {
    /// Is the value there, that is, not null?
    Exists(RuleVar),
    /// Are the two values the same document?
    Equals(RuleValue, RuleValue),
    /// Does the rule not hold?
    Not(Box<ConfigRule>),
    /// Do both rules hold?
    And(Box<ConfigRule>, Box<ConfigRule>),
    /// Does one of the rules hold?
    Or(Box<ConfigRule>, Box<ConfigRule>),
}

/// A rule, and what is said where it does not hold.
pub struct ConfigRuleEntry {
    pub rule: ConfigRule,
    pub description: String,
}

/// The configuration that a rule reads: the package's own where no
/// package is named, else that of the named package, and null where that is
/// not among the others.
pub open spec fn document_read(
    config: Seq<(Seq<char>, JsonView)>,
    others: Seq<(Seq<char>, Seq<(Seq<char>, JsonView)>)>,
    package: Option<String>,
) -> JsonView {
    match package {
        None => JsonView::Object(config),
        Some(p) => match lookup(others, p@) {
            Some(c) => JsonView::Object(c),
            None => JsonView::Null,
        },
    }
}

/// What a rule reads for `var`: what lies at the end of its path, or null
/// where the path leads nowhere.
pub open spec fn var_value(
    var: RuleVar,
    config: Seq<(Seq<char>, JsonView)>,
    others: Seq<(Seq<char>, Seq<(Seq<char>, JsonView)>)>,
) -> JsonView {
    selected(texts(var.path.0@), false, document_read(config, others, var.package))
}

/// The document that a value of a rule stands for.
pub open spec fn rule_value(
    value: RuleValue,
    config: Seq<(Seq<char>, JsonView)>,
    others: Seq<(Seq<char>, Seq<(Seq<char>, JsonView)>)>,
) -> JsonView {
    match value {
        RuleValue::Literal(j) => j@,
        RuleValue::Var(var) => var_value(var, config, others),
    }
}

/// Does the rule hold of `config`, with `others` the configurations of
/// other packages?
pub open spec fn holds(
    rule: ConfigRule,
    config: Seq<(Seq<char>, JsonView)>,
    others: Seq<(Seq<char>, Seq<(Seq<char>, JsonView)>)>,
) -> bool
    decreases rule,
{
    match rule {
        ConfigRule::Exists(var) => !(var_value(var, config, others) is Null),
        ConfigRule::Equals(a, b) => same_json(
            rule_value(a, config, others),
            rule_value(b, config, others),
        ),
        ConfigRule::Not(r) => !holds(*r, config, others),
        ConfigRule::And(a, b) => holds(*a, config, others) && holds(*b, config, others),
        ConfigRule::Or(a, b) => holds(*a, config, others) || holds(*b, config, others),
    }
}

/// The place of the first rule, from `from` on, that does not hold.
pub open spec fn first_violated(
    rules: Seq<ConfigRuleEntry>,
    config: Seq<(Seq<char>, JsonView)>,
    others: Seq<(Seq<char>, Seq<(Seq<char>, JsonView)>)>,
    from: int,
) -> Option<int>
    decreases rules.len() - from,
{
    if from < 0 || from >= rules.len() {
        None
    } else if !holds(rules[from].rule, config, others) {
        Some(from)
    } else {
        first_violated(rules, config, others, from + 1)
    }
}

/// Do all the rules hold?
pub open spec fn all_hold(
    rules: Seq<ConfigRuleEntry>,
    config: Seq<(Seq<char>, JsonView)>,
    others: Seq<(Seq<char>, Seq<(Seq<char>, JsonView)>)>,
) -> bool {
    forall|i: int| 0 <= i < rules.len() ==> holds((#[trigger] rules[i]).rule, config, others)
}

/// No rule is the first that is violated exactly if all rules hold.
pub proof fn none_violated_is_all_hold(
    rules: Seq<ConfigRuleEntry>,
    config: Seq<(Seq<char>, JsonView)>,
    others: Seq<(Seq<char>, Seq<(Seq<char>, JsonView)>)>,
    from: int,
)
    requires
        0 <= from,
    ensures
        first_violated(rules, config, others, from) is None <==> forall|i: int|
            from <= i < rules.len() ==> holds((#[trigger] rules[i]).rule, config, others),
        first_violated(rules, config, others, from) matches Some(i) ==> from <= i < rules.len()
            && !holds(rules[i].rule, config, others),
    decreases rules.len() - from,
{
    if from < rules.len() {
        none_violated_is_all_hold(rules, config, others, from + 1);
    }
}

impl RuleVar {
    /// What the rule reads for this variable.
    pub fn read(&self, config: &Vec<Property>, others: &OrderedMap<Vec<Property>>) -> (v: Json)
        ensures
            v@ == var_value(*self, config_view(config@), documents(others@)),
    {
        proof {
            if self.package is Some {
                position_by_keys(others@, documents(others@), self.package->0@);
                position_finds(others@, self.package->0@);
            }
        }
        let document = match &self.package {
            None => {
                let copy = clone_config(config);
                proof {
                    Json::object_view(copy);
                }
                Json::Object(copy)
            },
            Some(p) => match others.get(p.as_str()) {
                Some(c) => {
                    let copy = clone_config(c);
                    proof {
                        Json::object_view(copy);
                    }
                    Json::Object(copy)
                },
                None => Json::Null,
            },
        };
        self.path.select(false, &document)
    }
}

impl RuleValue {
    /// The document that the value stands for.
    pub fn read(&self, config: &Vec<Property>, others: &OrderedMap<Vec<Property>>) -> (v: Json)
        ensures
            v@ == rule_value(*self, config_view(config@), documents(others@)),
    {
        match self {
            RuleValue::Literal(j) => j.clone(),
            RuleValue::Var(var) => var.read(config, others),
        }
    }
}

impl ConfigRule {
    /// Does the rule hold of `config`?
    pub fn holds_of(&self, config: &Vec<Property>, others: &OrderedMap<Vec<Property>>) -> (b: bool)
        ensures
            b == holds(*self, config_view(config@), documents(others@)),
        decreases self,
    {
        match self {
            ConfigRule::Exists(var) => match var.read(config, others) {
                Json::Null => false,
                _ => true,
            },
            ConfigRule::Equals(a, b) => {
                let x = a.read(config, others);
                let y = b.read(config, others);
                x.equals(&y)
            },
            ConfigRule::Not(r) => !r.holds_of(config, others),
            ConfigRule::And(a, b) => a.holds_of(config, others) && b.holds_of(config, others),
            ConfigRule::Or(a, b) => a.holds_of(config, others) || b.holds_of(config, others),
        }
    }
}

impl ConfigRuleEntry {
    /// Holds the rule against `config`: `Ok` exactly where it holds, and
    /// otherwise an error of kind `ConfigRulesViolation` that says what the
    /// rule has to say.
    pub fn check(&self, config: &Vec<Property>, others: &OrderedMap<Vec<Property>>) -> (r: Result<
        (),
        Error,
    >)
        ensures
            r is Ok <==> holds(self.rule, config_view(config@), documents(others@)),
            r matches Err(e) ==> e.kind == ErrorKind::ConfigRulesViolation && e.message@
                == self.description@,
    {
        if self.rule.holds_of(config, others) {
            Ok(())
        } else {
            Err(Error::new(self.description.clone(), ErrorKind::ConfigRulesViolation))
        }
    }
}

/// Holds the rules against `config`, in their order: `Ok` exactly where
/// all hold, and otherwise the error of the first that does not.
pub fn check_rules(
    rules: &Vec<ConfigRuleEntry>,
    config: &Vec<Property>,
    others: &OrderedMap<Vec<Property>>,
) -> (r: Result<(), Error>)
    ensures
        r is Ok <==> all_hold(rules@, config_view(config@), documents(others@)),
        match first_violated(rules@, config_view(config@), documents(others@), 0) {
            None => r is Ok,
            Some(i) => r matches Err(e) && e.kind == ErrorKind::ConfigRulesViolation && e.message@
                == rules@[i].description@,
        },
{
    proof {
        none_violated_is_all_hold(rules@, config_view(config@), documents(others@), 0);
    }
    let mut i: usize = 0;
    while i < rules.len()
        invariant
            i <= rules@.len(),
            first_violated(rules@, config_view(config@), documents(others@), 0) == first_violated(
                rules@,
                config_view(config@),
                documents(others@),
                i as int,
            ),
        decreases rules@.len() - i,
    {
        match rules[i].check(config, others) {
            Err(e) => {
                proof {
                    none_violated_is_all_hold(rules@, config_view(config@), documents(others@), 0);
                }
                return Err(e);
            },
            Ok(()) => {},
        }
        i = i + 1;
    }
    proof {
        none_violated_is_all_hold(rules@, config_view(config@), documents(others@), 0);
    }
    Ok(())
}

} // verus!
