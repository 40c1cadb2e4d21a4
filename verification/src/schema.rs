//! The runtime state record: its eight fields, the two closed enumerations and
//! the version constants.

use vstd::prelude::*;
use crate::scalar::Scalar;
use crate::text::str_eq;

verus! {

/// The five operating modes, in order of rising risk.
pub const MODES: [&'static str; 5] = ["Optimal", "Normal", "Caution", "Alert", "Halt"];

/// The five risk levels, in the order of the modes they belong to.
pub const RISK_LEVELS: [&'static str; 5] = ["L1", "L2", "L3", "L4", "L5"];

/// The version of the rules that a conforming record names.
pub const SPEC_VERSION: &'static str = "pmatrix-3.5";

/// The version of the record layout that the emitter stamps.
pub const SCHEMA_VERSION: &'static str = "1.0.0";

/// An operating mode.
#[derive(Clone, Copy, Debug, PartialEq, Eq, Structural)]
pub enum Mode {
    Optimal,
    Normal,
    Caution,
    Alert,
    Halt,
}

/// A risk level.
#[derive(Clone, Copy, Debug, PartialEq, Eq, Structural)]
pub enum RiskLevel {
    L1,
    L2,
    L3,
    L4,
    L5,
}

impl Mode {
    /// The canonical name of the mode.
    pub open spec fn spec_name(self) -> Seq<char> {
        match self {
            Mode::Optimal => "Optimal"@,
            Mode::Normal => "Normal"@,
            Mode::Caution => "Caution"@,
            Mode::Alert => "Alert"@,
            Mode::Halt => "Halt"@,
        }
    }

    /// The mode that a string names, if it names one.
    pub open spec fn spec_from_name(name: Seq<char>) -> Option<Mode> {
        if name == "Optimal"@ {
            Some(Mode::Optimal)
        } else if name == "Normal"@ {
            Some(Mode::Normal)
        } else if name == "Caution"@ {
            Some(Mode::Caution)
        } else if name == "Alert"@ {
            Some(Mode::Alert)
        } else if name == "Halt"@ {
            Some(Mode::Halt)
        } else {
            None
        }
    }

    /// The canonical name of the mode, as a string.
    pub fn name(self) -> (s: &'static str)
        ensures
            s@ == self.spec_name(),
    {
        match self {
            Mode::Optimal => "Optimal",
            Mode::Normal => "Normal",
            Mode::Caution => "Caution",
            Mode::Alert => "Alert",
            Mode::Halt => "Halt",
        }
    }

    /// The mode that `name` names; `None` for any other string.
    pub fn from_name(name: &str) -> (m: Option<Mode>)
        ensures
            m == Mode::spec_from_name(name@),
    {
        if str_eq(name, "Optimal") {
            Some(Mode::Optimal)
        } else if str_eq(name, "Normal") {
            Some(Mode::Normal)
        } else if str_eq(name, "Caution") {
            Some(Mode::Caution)
        } else if str_eq(name, "Alert") {
            Some(Mode::Alert)
        } else if str_eq(name, "Halt") {
            Some(Mode::Halt)
        } else {
            None
        }
    }
}

/// The two tables list the names of the modes and of their levels, in the same order.
pub proof fn lemma_tables()
    ensures
        MODES@.len() == 5,
        RISK_LEVELS@.len() == 5,
        MODES[0]@ == Mode::Optimal.spec_name(),
        MODES[1]@ == Mode::Normal.spec_name(),
        MODES[2]@ == Mode::Caution.spec_name(),
        MODES[3]@ == Mode::Alert.spec_name(),
        MODES[4]@ == Mode::Halt.spec_name(),
        RISK_LEVELS[0]@ == RiskLevel::L1.spec_name(),
        RISK_LEVELS[1]@ == RiskLevel::L2.spec_name(),
        RISK_LEVELS[2]@ == RiskLevel::L3.spec_name(),
        RISK_LEVELS[3]@ == RiskLevel::L4.spec_name(),
        RISK_LEVELS[4]@ == RiskLevel::L5.spec_name(),
{
}

/// The five mode names differ from one another, so a name leads back to its mode.
pub proof fn lemma_mode_names_distinct(m: Mode)
    ensures
        Mode::spec_from_name(m.spec_name()) == Some(m),
{
    reveal_strlit("Optimal");
    reveal_strlit("Normal");
    reveal_strlit("Caution");
    reveal_strlit("Alert");
    reveal_strlit("Halt");
    assert("Optimal"@.len() == 7);
    assert("Normal"@.len() == 6);
    assert("Caution"@.len() == 7);
    assert("Alert"@.len() == 5);
    assert("Halt"@.len() == 4);
    assert("Optimal"@[0] == 'O');
    assert("Caution"@[0] == 'C');
}

impl RiskLevel {
    /// The canonical name of the level.
    pub open spec fn spec_name(self) -> Seq<char> {
        match self {
            RiskLevel::L1 => "L1"@,
            RiskLevel::L2 => "L2"@,
            RiskLevel::L3 => "L3"@,
            RiskLevel::L4 => "L4"@,
            RiskLevel::L5 => "L5"@,
        }
    }

    /// The level that a string names, if it names one.
    pub open spec fn spec_from_name(name: Seq<char>) -> Option<RiskLevel> {
        if name == "L1"@ {
            Some(RiskLevel::L1)
        } else if name == "L2"@ {
            Some(RiskLevel::L2)
        } else if name == "L3"@ {
            Some(RiskLevel::L3)
        } else if name == "L4"@ {
            Some(RiskLevel::L4)
        } else if name == "L5"@ {
            Some(RiskLevel::L5)
        } else {
            None
        }
    }

    /// The canonical name of the level, as a string.
    pub fn name(self) -> (s: &'static str)
        ensures
            s@ == self.spec_name(),
    {
        match self {
            RiskLevel::L1 => "L1",
            RiskLevel::L2 => "L2",
            RiskLevel::L3 => "L3",
            RiskLevel::L4 => "L4",
            RiskLevel::L5 => "L5",
        }
    }

    /// The level that `name` names; `None` for any other string.
    pub fn from_name(name: &str) -> (l: Option<RiskLevel>)
        ensures
            l == RiskLevel::spec_from_name(name@),
    {
        if str_eq(name, "L1") {
            Some(RiskLevel::L1)
        } else if str_eq(name, "L2") {
            Some(RiskLevel::L2)
        } else if str_eq(name, "L3") {
            Some(RiskLevel::L3)
        } else if str_eq(name, "L4") {
            Some(RiskLevel::L4)
        } else if str_eq(name, "L5") {
            Some(RiskLevel::L5)
        } else {
            None
        }
    }
}

/// A string that names a mode is the name of that mode, and likewise for a level.
pub proof fn lemma_named_by_its_name(name: Seq<char>)
    ensures
        Mode::spec_from_name(name) is Some ==> Mode::spec_from_name(name)->0.spec_name() == name,
        RiskLevel::spec_from_name(name) is Some ==> RiskLevel::spec_from_name(name)->0.spec_name()
            == name,
{
}

/// The five level names differ from one another, so a name leads back to its level.
pub proof fn lemma_level_names_distinct(l: RiskLevel)
    ensures
        RiskLevel::spec_from_name(l.spec_name()) == Some(l),
{
    reveal_strlit("L1");
    reveal_strlit("L2");
    reveal_strlit("L3");
    reveal_strlit("L4");
    reveal_strlit("L5");
    assert("L1"@[1] == '1');
    assert("L2"@[1] == '2');
    assert("L3"@[1] == '3');
    assert("L4"@[1] == '4');
    assert("L5"@[1] == '5');
}

/// No mode name and no level name is the empty string.
pub proof fn lemma_names_not_empty(m: Mode, l: RiskLevel)
    ensures
        m.spec_name().len() > 0,
        l.spec_name().len() > 0,
{
    reveal_strlit("Optimal");
    reveal_strlit("Normal");
    reveal_strlit("Caution");
    reveal_strlit("Alert");
    reveal_strlit("Halt");
    reveal_strlit("L1");
    reveal_strlit("L2");
    reveal_strlit("L3");
    reveal_strlit("L4");
    reveal_strlit("L5");
}

/// The four evaluation inputs of a record.
#[derive(Clone, Copy, Debug, PartialEq)]
pub struct Functions {
    pub baseline: Scalar,
    pub norm: Scalar,
    pub stability: Scalar,
    pub meta_control: Scalar,
}

impl Functions {
    /// All four values are numbers in `[0, 1]`.
    pub open spec fn spec_in_range(&self) -> bool {
        &&& self.baseline.spec_in_unit_interval()
        &&& self.norm.spec_in_unit_interval()
        &&& self.stability.spec_in_unit_interval()
        &&& self.meta_control.spec_in_unit_interval()
    }

    /// Whether all four values are numbers in `[0, 1]`.
    #[verifier::when_used_as_spec(spec_in_range)]
    pub fn in_range(&self) -> (ok: bool)
        ensures
            ok == self.spec_in_range(),
    {
        self.baseline.in_unit_interval() && self.norm.in_unit_interval()
            && self.stability.in_unit_interval() && self.meta_control.in_unit_interval()
    }
}

/// One runtime state record: the posture of an agent at one instant.
#[derive(Clone, Debug, PartialEq)]
pub struct RuntimeStateRecord {
    pub spec_version: String,
    pub schema_version: String,
    pub timestamp: u64,
    pub functions: Functions,
    pub stability_score: Scalar,
    pub risk_score: Scalar,
    pub mode: String,
    pub risk_level: String,
}

/// What a record holds, with each string as its sequence of characters.
pub struct RecordView {
    pub spec_version: Seq<char>,
    pub schema_version: Seq<char>,
    pub timestamp: u64,
    pub functions: Functions,
    pub stability_score: Scalar,
    pub risk_score: Scalar,
    pub mode: Seq<char>,
    pub risk_level: Seq<char>,
}

impl View for RuntimeStateRecord {
    type V = RecordView;

    open spec fn view(&self) -> RecordView {
        RecordView {
            spec_version: self.spec_version@,
            schema_version: self.schema_version@,
            timestamp: self.timestamp,
            functions: self.functions,
            stability_score: self.stability_score,
            risk_score: self.risk_score,
            mode: self.mode@,
            risk_level: self.risk_level@,
        }
    }
}

} // verus!
