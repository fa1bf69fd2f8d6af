//! Configuration declarations.
use vstd::prelude::*;
use crate::policy::helpers::{entity_known};
use crate::policy::input::{Input, Configuration};
use crate::policy::result::{Violation, ViolationView, views, group_views};

verus! {

/// The findings about configuration declarations.
pub open spec fn violations_all(input: &Input) -> Seq<ViolationView> {
    configuration_missing_entity_all(input)
}

pub fn violations(input: &Input) -> (out: Vec<Violation>)
    ensures
        views(out@) == violations_all(input),
{
    configuration_missing_entity(input)
}

/// A configuration of an entity that is not in the store.
pub open spec fn configuration_missing_entity_hit(input: &Input, cfg: &Configuration) -> bool {
    !entity_known(input, cfg.entity_name@)
}

pub open spec fn configuration_missing_entity_finding(input: &Input, cfg: &Configuration) -> ViolationView {
    ViolationView {
        rule: "configuration_missing_entity"@,
        severity: "error"@,
        file: cfg.file@,
        line: cfg.line as nat,
        message: "Configuration '"@ + cfg.name@ + "' references missing entity '"@
            + cfg.entity_name@ + "'"@,
    }
}

/// The findings for the first `n` rows, in row order.
pub open spec fn configuration_missing_entity_upto(input: &Input, n: int) -> Seq<ViolationView>
    decreases n,
{
    if n <= 0 {
        Seq::empty()
    } else {
        let rest = configuration_missing_entity_upto(input, n - 1);
        let cfg = &input.configurations@[n - 1];
        if configuration_missing_entity_hit(input, cfg) {
            rest.push(configuration_missing_entity_finding(input, cfg))
        } else {
            rest
        }
    }
}

pub open spec fn configuration_missing_entity_all(input: &Input) -> Seq<ViolationView> {
    configuration_missing_entity_upto(input, input.configurations@.len() as int)
}

pub fn configuration_missing_entity(input: &Input) -> (out: Vec<Violation>)
    ensures
        views(out@) == configuration_missing_entity_all(input),
{
    broadcast use group_views;

    let mut out: Vec<Violation> = Vec::new();
    let mut i: usize = 0;
    while i < input.configurations.len()
        invariant
            i <= input.configurations@.len(),
            views(out@) == configuration_missing_entity_upto(input, i as int),
        decreases input.configurations@.len() - i,
    {
        let cfg = &input.configurations[i];
        if !entity_exists(input, cfg.entity_name.as_str()) {
            let mut message = String::from_str("Configuration '");
            message.append(cfg.name.as_str());
            message.append("' references missing entity '");
            message.append(cfg.entity_name.as_str());
            message.append("'");
            out.push(
                Violation {
                    rule: String::from_str("configuration_missing_entity"),
                    severity: String::from_str("error"),
                    file: cfg.file.clone(),
                    line: cfg.line,
                    message,
                },
            );
        }
        i += 1;
    }
    out
}

pub fn entity_exists(input: &Input, name: &str) -> (r: bool)
    ensures
        r == entity_known(input, name@),
{
    crate::policy::helpers::entity_exists(input, name)
}

} // verus!
