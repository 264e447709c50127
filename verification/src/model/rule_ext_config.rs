//! Scheduling and descriptive data that a rule carries along.
use vstd::prelude::*;

verus! {

/// How often a scheduled rule runs.
#[derive(Clone, Copy, Debug, PartialEq, Eq, Structural)]
pub enum ScheduleFrequency {
    Daily,
}

/// What a `RuleExtConfig` holds, as plain values.
pub struct RuleExtConfigView {
    pub name: Seq<char>,
    pub description: Seq<char>,
    pub priority: u32,
    pub enabled: bool,
    pub schedule_enabled: bool,
    pub schedule_frequency: ScheduleFrequency,
}

/// Descriptive and scheduling data of a rule. No emitter reads it.
#[derive(Debug, PartialEq)]
pub struct RuleExtConfig {
    name: String,
    description: String,
    priority: u32,
    enabled: bool,
    schedule_enabled: bool,
    schedule_frequency: ScheduleFrequency,
}

impl View for RuleExtConfig {
    type V = RuleExtConfigView;

    closed spec fn view(&self) -> RuleExtConfigView {
        RuleExtConfigView {
            name: self.name@,
            description: self.description@,
            priority: self.priority,
            enabled: self.enabled,
            schedule_enabled: self.schedule_enabled,
            schedule_frequency: self.schedule_frequency,
        }
    }
}

impl RuleExtConfigView {
    /// No name, no description, priority zero, disabled, unscheduled, daily.
    pub open spec fn empty() -> RuleExtConfigView {
        RuleExtConfigView {
            name: Seq::empty(),
            description: Seq::empty(),
            priority: 0,
            enabled: false,
            schedule_enabled: false,
            schedule_frequency: ScheduleFrequency::Daily,
        }
    }
}

impl RuleExtConfig {
    /// The configuration of a rule that was given none.
    pub fn new_empty() -> (r: Self)
        ensures
            r@ == RuleExtConfigView::empty(),
    {
        Self {
            name: String::new(),
            description: String::new(),
            priority: 0,
            enabled: false,
            schedule_enabled: false,
            schedule_frequency: ScheduleFrequency::Daily,
        }
    }
}

impl Default for RuleExtConfig {
    fn default() -> (r: Self)
        ensures
            r@ == RuleExtConfigView::empty(),
    {
        RuleExtConfig::new_empty()
    }
}

impl Clone for RuleExtConfig {
    fn clone(&self) -> (r: Self)
        ensures
            r@ == self@,
    {
        Self {
            name: self.name.clone(),
            description: self.description.clone(),
            priority: self.priority,
            enabled: self.enabled,
            schedule_enabled: self.schedule_enabled,
            schedule_frequency: self.schedule_frequency,
        }
    }
}

} // verus!
