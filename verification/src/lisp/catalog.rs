//! The parts of a declaration around its seats: where sessions come from, which
//! face renders, and what the greeter hands over to the session.
use vstd::prelude::*;
use crate::text;

verus! {

/// Which hints of a desktop entry a catalog honours, as declared.
#[derive(Debug, Clone, Copy, PartialEq, Eq)]
pub struct HonorForm {
    pub hidden: Option<bool>,
    pub no_display: Option<bool>,
    pub try_exec: Option<bool>,
}

impl Default for HonorForm {
    fn default() -> (r: Self)
        ensures
            r == (HonorForm { hidden: None, no_display: None, try_exec: None }),
    {
        HonorForm { hidden: None, no_display: None, try_exec: None }
    }
}

/// Which hints a catalog honours, each decided.
#[derive(Debug, Clone, Copy, PartialEq, Eq)]
pub struct Honored {
    pub hidden: bool,
    pub no_display: bool,
    pub try_exec: bool,
}

/// A session catalog, as declared.
#[derive(Debug, Clone, PartialEq, Eq)]
pub struct SessionsForm {
    pub name: String,
    pub dirs: Vec<String>,
    pub honor: Option<HonorForm>,
}

/// Where a face draws.
#[derive(Debug, Clone, Copy, PartialEq, Eq, Structural)]
pub enum FaceKind {
    Gpu,
    Tty,
    Headless,
}

/// A face and the renderer behind it.
#[derive(Debug, Clone, PartialEq, Eq)]
pub struct FaceForm {
    pub kind: FaceKind,
    pub renderer: String,
}

/// How the envelope crosses from greeter to session. There is one way.
#[derive(Debug, Clone, Copy, PartialEq, Eq, Structural)]
pub enum Transport {
    /// An inherited memory file, sealed.
    Sealedmemfd,
}

/// How fast a fact goes stale. No value of it fits a sensor.
#[derive(Debug, Clone, Copy, PartialEq, Eq, Structural)]
pub enum Volatility {
    Hotplugvolatile,
    Bootstable,
    Decision,
    Authored,
}

/// The earliest time at which a fact may be read.
#[derive(Debug, Clone, Copy, PartialEq, Eq, PartialOrd, Ord, Structural)]
pub enum Epoch {
    /// Nobody is known.
    E0,
    /// A name is known and not yet authenticated.
    E1,
    /// Somebody is authenticated.
    E2,
    /// At the moment of submission.
    Atsubmit,
}

/// A fact to hand over, as declared.
#[derive(Debug, Clone, PartialEq, Eq)]
pub struct FactForm {
    pub path: String,
    pub volatility: Volatility,
    pub epoch: Epoch,
}

/// A handoff, as declared.
#[derive(Debug, Clone, PartialEq, Eq)]
pub struct HandoffForm {
    pub name: String,
    pub transport: Transport,
    pub env_var: String,
    pub validity_secs: u32,
    pub facts: Vec<FactForm>,
}

/// A session catalog that holds.
#[derive(Debug, Clone, PartialEq, Eq)]
pub struct SessionCatalog {
    pub name: String,
    pub dirs: Vec<String>,
    pub honor: Honored,
}

/// A fact that may be handed over.
#[derive(Debug, Clone, PartialEq, Eq)]
pub struct Fact {
    pub path: String,
    pub volatility: Volatility,
    pub epoch: Epoch,
}

/// A handoff that holds.
#[derive(Debug, Clone, PartialEq, Eq)]
pub struct Handoff {
    pub name: String,
    pub transport: Transport,
    pub env_var: String,
    pub validity_secs: u32,
    pub facts: Vec<Fact>,
}

/// Every way in which a handoff can be absent.
#[derive(Debug, Clone, Copy, PartialEq, Eq, Structural)]
pub enum Absence {
    EnvVarUnset,
    EnvVarMalformed,
    FdNotOpen,
    EnvelopeCorrupt,
    SchemaTooNew,
    Expired,
    WrongSubject,
}

/// What reading a handoff resolves to.
#[derive(Debug, Clone, Copy, PartialEq, Eq, Structural)]
pub enum Resolution {
    /// Facts were found.
    Facts,
    /// Nothing was found; the next tier shows through.
    EmptyDict,
}

impl Absence {
    /// Every cause.
    pub fn all() -> (v: Vec<Absence>)
        ensures
            v@ == seq![
                Absence::EnvVarUnset,
                Absence::EnvVarMalformed,
                Absence::FdNotOpen,
                Absence::EnvelopeCorrupt,
                Absence::SchemaTooNew,
                Absence::Expired,
                Absence::WrongSubject,
            ],
            forall|a: Absence| v@.contains(a),
    {
        let mut v: Vec<Absence> = Vec::new();
        v.push(Absence::EnvVarUnset);
        v.push(Absence::EnvVarMalformed);
        v.push(Absence::FdNotOpen);
        v.push(Absence::EnvelopeCorrupt);
        v.push(Absence::SchemaTooNew);
        v.push(Absence::Expired);
        v.push(Absence::WrongSubject);
        proof {
            assert forall|a: Absence| v@.contains(a) by {
                match a {
                    Absence::EnvVarUnset => assert(v@[0] == a),
                    Absence::EnvVarMalformed => assert(v@[1] == a),
                    Absence::FdNotOpen => assert(v@[2] == a),
                    Absence::EnvelopeCorrupt => assert(v@[3] == a),
                    Absence::SchemaTooNew => assert(v@[4] == a),
                    Absence::Expired => assert(v@[5] == a),
                    Absence::WrongSubject => assert(v@[6] == a),
                }
            }
        }
        v
    }

    /// What an absent handoff resolves to: always nothing, and never a guess.
    pub fn answer(self) -> (r: Resolution)
        ensures
            r == Resolution::EmptyDict,
    {
        match self {
            Absence::EnvVarUnset => Resolution::EmptyDict,
            Absence::EnvVarMalformed => Resolution::EmptyDict,
            Absence::FdNotOpen => Resolution::EmptyDict,
            Absence::EnvelopeCorrupt => Resolution::EmptyDict,
            Absence::SchemaTooNew => Resolution::EmptyDict,
            Absence::Expired => Resolution::EmptyDict,
            Absence::WrongSubject => Resolution::EmptyDict,
        }
    }
}

/// Why a catalog or a handoff does not hold.
#[derive(Debug)]
pub enum CatalogError {
    Id(crate::border::ids::IdError),
    NoDirs,
    RelativeDir(String),
    NoFacts,
    DuplicateFact { path: String },
    VolatileAtLateEpoch { path: String, volatility: Volatility, epoch: Epoch },
    SensorAsConfig(String),
    EnvVarNotAName(String),
    ZeroValidity,
}

pub open spec fn volatility_name(v: Volatility) -> Seq<char> {
    match v {
        Volatility::Hotplugvolatile => "Hotplugvolatile"@,
        Volatility::Bootstable => "Bootstable"@,
        Volatility::Decision => "Decision"@,
        Volatility::Authored => "Authored"@,
    }
}

pub open spec fn epoch_name(e: Epoch) -> Seq<char> {
    match e {
        Epoch::E0 => "E0"@,
        Epoch::E1 => "E1"@,
        Epoch::E2 => "E2"@,
        Epoch::Atsubmit => "Atsubmit"@,
    }
}

fn name_of_volatility(v: Volatility) -> (s: &'static str)
    ensures
        s@ == volatility_name(v),
{
    match v {
        Volatility::Hotplugvolatile => "Hotplugvolatile",
        Volatility::Bootstable => "Bootstable",
        Volatility::Decision => "Decision",
        Volatility::Authored => "Authored",
    }
}

fn name_of_epoch(e: Epoch) -> (s: &'static str)
    ensures
        s@ == epoch_name(e),
{
    match e {
        Epoch::E0 => "E0",
        Epoch::E1 => "E1",
        Epoch::E2 => "E2",
        Epoch::Atsubmit => "Atsubmit",
    }
}

impl CatalogError {
    /// The error in words.
    pub fn message(&self) -> (s: String)
        ensures
            match self {
                CatalogError::Id(e) => e matches crate::border::ids::IdError::Malformed {
                    what,
                    got,
                } && s@ == "malformed "@ + what@ + ": "@ + text::quoted_text(got@),
                CatalogError::NoDirs => s@ == "a session catalog must name at least one directory"@,
                CatalogError::RelativeDir(d) => s@ == "session directory "@ + text::quoted_text(d@)
                    + " is not absolute"@,
                CatalogError::NoFacts => s@
                    == "the handoff declares no facts, so it would hand over nothing"@,
                CatalogError::DuplicateFact { path } => s@ == "fact "@ + text::quoted_text(path@)
                    + " is declared twice"@,
                CatalogError::VolatileAtLateEpoch { path, volatility, epoch } => s@ == "fact "@
                    + text::quoted_text(path@) + " is "@ + volatility_name(*volatility)
                    + " but declared at epoch "@ + epoch_name(*epoch)
                    + ": a fact that changes on hotplug cannot be resolved at an epoch the session only reaches later — it would hand over a value already stale"@,
                CatalogError::SensorAsConfig(p) => s@ == "fact "@ + text::quoted_text(p@)
                    + " names a sensor. A fact whose validity window is shorter than the handoff latency is not configuration — battery and thermal change between greet and session by construction. Consume it as a live input instead."@,
                CatalogError::EnvVarNotAName(v) => s@
                    == "the handoff env var must be a NAME, not an assignment: "@ + text::quoted_text(v@),
                CatalogError::ZeroValidity => s@
                    == "a handoff with zero validity would be stale on arrival"@,
            },
    {
        match self {
            CatalogError::Id(e) => e.message(),
            CatalogError::NoDirs => "a session catalog must name at least one directory".to_owned(),
            CatalogError::RelativeDir(d) => {
                let mut s: String = "session directory ".to_owned();
                s.append(text::quoted(d.as_str()).as_str());
                s.append(" is not absolute");
                s
            },
            CatalogError::NoFacts =>
                "the handoff declares no facts, so it would hand over nothing".to_owned(),
            CatalogError::DuplicateFact { path } => {
                let mut s: String = "fact ".to_owned();
                s.append(text::quoted(path.as_str()).as_str());
                s.append(" is declared twice");
                s
            },
            CatalogError::VolatileAtLateEpoch { path, volatility, epoch } => {
                let mut s: String = "fact ".to_owned();
                s.append(text::quoted(path.as_str()).as_str());
                s.append(" is ");
                s.append(name_of_volatility(*volatility));
                s.append(" but declared at epoch ");
                s.append(name_of_epoch(*epoch));
                s.append(": a fact that changes on hotplug cannot be resolved at an epoch the session only reaches later — it would hand over a value already stale");
                s
            },
            CatalogError::SensorAsConfig(p) => {
                let mut s: String = "fact ".to_owned();
                s.append(text::quoted(p.as_str()).as_str());
                s.append(" names a sensor. A fact whose validity window is shorter than the handoff latency is not configuration — battery and thermal change between greet and session by construction. Consume it as a live input instead.");
                s
            },
            CatalogError::EnvVarNotAName(v) => {
                let mut s: String = "the handoff env var must be a NAME, not an assignment: ".to_owned();
                s.append(text::quoted(v.as_str()).as_str());
                s
            },
            CatalogError::ZeroValidity =>
                "a handoff with zero validity would be stale on arrival".to_owned(),
        }
    }
}

/// Whether a path is absolute.
pub open spec fn is_absolute(d: Seq<char>) -> bool {
    text::begins(d, "/"@)
}

/// The hints that a declaration honours: what it leaves out is honoured.
pub open spec fn honored(h: Option<HonorForm>) -> Honored {
    match h {
        None => Honored { hidden: true, no_display: true, try_exec: true },
        Some(f) => Honored {
            hidden: f.hidden.unwrap_or(true),
            no_display: f.no_display.unwrap_or(true),
            try_exec: f.try_exec.unwrap_or(true),
        },
    }
}

impl SessionsForm {
    /// Lowers the catalog: it must name directories, and absolute ones.
    pub fn lower(&self) -> (r: Result<SessionCatalog, CatalogError>)
        ensures
            r is Ok <==> self.dirs@.len() > 0 && forall|i: int|
                0 <= i < self.dirs@.len() ==> is_absolute((#[trigger] self.dirs@[i])@),
            r matches Ok(c) ==> c.name == self.name && c.dirs@ == self.dirs@ && c.honor == honored(
                self.honor,
            ),
            r matches Err(e) ==> if self.dirs@.len() == 0 {
                e is NoDirs
            } else {
                exists|i: int|
                    {
                        &&& 0 <= i < self.dirs@.len()
                        &&& !is_absolute((#[trigger] self.dirs@[i])@)
                        &&& forall|j: int| 0 <= j < i ==> is_absolute((#[trigger] self.dirs@[j])@)
                        &&& e matches CatalogError::RelativeDir(d)
                        &&& d@ == self.dirs@[i]@
                    }
            },
    {
        if self.dirs.len() == 0 {
            return Err(CatalogError::NoDirs);
        }
        let mut i: usize = 0;
        while i < self.dirs.len()
            invariant
                i <= self.dirs.len(),
                forall|j: int| 0 <= j < i ==> is_absolute((#[trigger] self.dirs@[j])@),
            decreases self.dirs.len() - i,
        {
            if !text::starts_with(self.dirs[i].as_str(), "/") {
                return Err(CatalogError::RelativeDir(self.dirs[i].clone()));
            }
            i = i + 1;
        }
        let honor: Honored = match self.honor {
            None => Honored { hidden: true, no_display: true, try_exec: true },
            Some(f) => Honored {
                hidden: f.hidden.unwrap_or(true),
                no_display: f.no_display.unwrap_or(true),
                try_exec: f.try_exec.unwrap_or(true),
            },
        };
        Ok(SessionCatalog { name: self.name.clone(), dirs: text::copy_strings(&self.dirs), honor })
    }
}

/// Whether a path names a sensor, whose value is stale before it is handed over.
pub open spec fn is_sensor(path: Seq<char>) -> bool {
    ||| text::begins(path, "battery."@)
    ||| text::begins(path, "thermal."@)
    ||| text::begins(path, "power.draw"@)
    ||| text::begins(path, "fan."@)
}

/// Whether an epoch is one that the session reaches only later.
pub open spec fn is_late(e: Epoch) -> bool {
    e == Epoch::E2 || e == Epoch::Atsubmit
}

/// What is wrong with a fact.
pub enum FactFault {
    Duplicate,
    Sensor,
    Late,
}

/// What is wrong with the fact at position `i`, if anything is.
pub open spec fn fact_fault(facts: Seq<FactForm>, i: int) -> Option<FactFault> {
    if exists|j: int| 0 <= j < i && #[trigger] facts[j].path@ == facts[i].path@ {
        Some(FactFault::Duplicate)
    } else if is_sensor(facts[i].path@) {
        Some(FactFault::Sensor)
    } else if facts[i].volatility == Volatility::Hotplugvolatile && is_late(facts[i].epoch) {
        Some(FactFault::Late)
    } else {
        None
    }
}

/// Whether `e` names the fault of the fact.
pub open spec fn is_fact_error(e: CatalogError, f: FactForm, fault: FactFault) -> bool {
    match fault {
        FactFault::Duplicate => e matches CatalogError::DuplicateFact { path } && path@ == f.path@,
        FactFault::Sensor => e matches CatalogError::SensorAsConfig(path) && path@ == f.path@,
        FactFault::Late => e matches CatalogError::VolatileAtLateEpoch { path, volatility, epoch }
            && path@ == f.path@ && volatility == f.volatility && epoch == f.epoch,
    }
}

/// Whether `i` is the first fact with a fault.
pub open spec fn is_first_fault(facts: Seq<FactForm>, i: int) -> bool {
    &&& 0 <= i < facts.len()
    &&& fact_fault(facts, i) is Some
    &&& forall|j: int| 0 <= j < i ==> #[trigger] fact_fault(facts, j) is None
}

/// Whether a name can be the name of an environment variable.
pub open spec fn is_var_name(s: Seq<char>) -> bool {
    s.len() > 0 && !s.contains('=')
}

/// Whether `h` is the handoff that the form declares.
pub open spec fn hands_over(f: HandoffForm, h: Handoff) -> bool {
    &&& h.name == f.name
    &&& h.transport == f.transport
    &&& h.env_var == f.env_var
    &&& h.validity_secs == f.validity_secs
    &&& h.facts@.len() == f.facts@.len()
    &&& forall|i: int|
        #![trigger h.facts@[i]]
        0 <= i < h.facts@.len() ==> h.facts@[i].path == f.facts@[i].path && h.facts@[i].volatility
            == f.facts@[i].volatility && h.facts@[i].epoch == f.facts@[i].epoch
}

impl HandoffForm {
    /// Lowers the handoff: it must hand something over that is not stale on
    /// arrival, under a name, and no fact may be named twice, be a sensor or
    /// change after it was read.
    pub fn lower(&self) -> (r: Result<Handoff, CatalogError>)
        ensures
            r is Ok <==> self.facts@.len() > 0 && self.validity_secs > 0 && is_var_name(
                self.env_var@,
            ) && forall|i: int| 0 <= i < self.facts@.len() ==> #[trigger] fact_fault(self.facts@, i) is None,
            r matches Ok(h) ==> hands_over(*self, h),
            r matches Err(e) ==> if self.facts@.len() == 0 {
                e is NoFacts
            } else if self.validity_secs == 0 {
                e is ZeroValidity
            } else if !is_var_name(self.env_var@) {
                e matches CatalogError::EnvVarNotAName(v) && v@ == self.env_var@
            } else {
                exists|i: int| #[trigger]
                    is_first_fault(self.facts@, i) && is_fact_error(
                        e,
                        self.facts@[i],
                        fact_fault(self.facts@, i)->0,
                    )
            },
    {
        if self.facts.len() == 0 {
            return Err(CatalogError::NoFacts);
        }
        if self.validity_secs == 0 {
            return Err(CatalogError::ZeroValidity);
        }
        if text::has_char(self.env_var.as_str(), '=') || self.env_var.as_str().is_empty() {
            return Err(CatalogError::EnvVarNotAName(self.env_var.clone()));
        }
        let mut facts: Vec<Fact> = Vec::new();
        let mut i: usize = 0;
        while i < self.facts.len()
            invariant
                i <= self.facts.len(),
                self.facts@.len() > 0,
                self.validity_secs > 0,
                is_var_name(self.env_var@),
                forall|j: int| 0 <= j < i ==> #[trigger] fact_fault(self.facts@, j) is None,
                facts@.len() == i,
                forall|j: int|
                    #![trigger facts@[j]]
                    0 <= j < i ==> facts@[j].path == self.facts@[j].path && facts@[j].volatility
                        == self.facts@[j].volatility && facts@[j].epoch == self.facts@[j].epoch,
            decreases self.facts.len() - i,
        {
            let f: &FactForm = &self.facts[i];
            let mut j: usize = 0;
            while j < i
                invariant
                    j <= i,
                    i < self.facts.len(),
                    *f == self.facts@[i as int],
                    self.facts@.len() > 0,
                    self.validity_secs > 0,
                    is_var_name(self.env_var@),
                    forall|k: int| 0 <= k < i ==> #[trigger] fact_fault(self.facts@, k) is None,
                    forall|k: int| 0 <= k < j ==> (#[trigger] self.facts@[k]).path@ != f.path@,
                decreases i - j,
            {
                if text::same(self.facts[j].path.as_str(), f.path.as_str()) {
                    proof {
                        assert(self.facts@[j as int].path@ == self.facts@[i as int].path@);
                        assert(is_first_fault(self.facts@, i as int));
                    }
                    return Err(CatalogError::DuplicateFact { path: f.path.clone() });
                }
                j = j + 1;
            }
            let path: &str = f.path.as_str();
            if text::starts_with(path, "battery.") || text::starts_with(path, "thermal.")
                || text::starts_with(path, "power.draw") || text::starts_with(path, "fan.") {
                assert(is_first_fault(self.facts@, i as int));
                return Err(CatalogError::SensorAsConfig(f.path.clone()));
            }
            if f.volatility == Volatility::Hotplugvolatile && (f.epoch == Epoch::E2 || f.epoch
                == Epoch::Atsubmit) {
                assert(is_first_fault(self.facts@, i as int));
                return Err(
                    CatalogError::VolatileAtLateEpoch {
                        path: f.path.clone(),
                        volatility: f.volatility,
                        epoch: f.epoch,
                    },
                );
            }
            assert(fact_fault(self.facts@, i as int) is None);
            facts.push(Fact { path: f.path.clone(), volatility: f.volatility, epoch: f.epoch });
            i = i + 1;
        }
        Ok(
            Handoff {
                name: self.name.clone(),
                transport: self.transport,
                env_var: self.env_var.clone(),
                validity_secs: self.validity_secs,
                facts,
            },
        )
    }
}

/// A handoff that holds carries no sensor, and nothing that changes on hotplug
/// is read at an epoch the session only reaches later.
pub proof fn a_handoff_carries_no_stale_fact(f: HandoffForm, h: Handoff, i: int)
    requires
        hands_over(f, h),
        forall|k: int| 0 <= k < f.facts@.len() ==> #[trigger] fact_fault(f.facts@, k) is None,
        0 <= i < h.facts@.len(),
    ensures
        !is_sensor(h.facts@[i].path@),
        !(h.facts@[i].volatility == Volatility::Hotplugvolatile && is_late(h.facts@[i].epoch)),
{
    assert(fact_fault(f.facts@, i) is None);
    assert(h.facts@[i].path == f.facts@[i].path);
}

/// A handoff that holds names no path twice.
pub proof fn a_handoff_names_no_path_twice(f: HandoffForm, h: Handoff, i: int, j: int)
    requires
        hands_over(f, h),
        forall|k: int| 0 <= k < f.facts@.len() ==> #[trigger] fact_fault(f.facts@, k) is None,
        0 <= j < i < h.facts@.len(),
    ensures
        h.facts@[j].path@ != h.facts@[i].path@,
{
    assert(fact_fault(f.facts@, i) is None);
    assert(h.facts@[i].path == f.facts@[i].path);
    assert(h.facts@[j].path == f.facts@[j].path);
    assert(f.facts@[j].path@ != f.facts@[i].path@);
}

/// A hint that a declaration does not mention is honoured.
pub proof fn undeclared_hints_are_honoured(f: HonorForm)
    ensures
        honored(None) == (Honored { hidden: true, no_display: true, try_exec: true }),
        f.hidden is None ==> honored(Some(f)).hidden,
        f.no_display is None ==> honored(Some(f)).no_display,
        f.try_exec is None ==> honored(Some(f)).try_exec,
{
}

/// A hint that a declaration mentions is honoured as it says.
pub proof fn declared_hints_are_taken(f: HonorForm)
    ensures
        f.hidden is Some ==> Some(honored(Some(f)).hidden) == f.hidden,
        f.no_display is Some ==> Some(honored(Some(f)).no_display) == f.no_display,
        f.try_exec is Some ==> Some(honored(Some(f)).try_exec) == f.try_exec,
{
}

/// A directory is absolute if and only if it begins with a slash, whatever follows.
pub proof fn a_directory_is_absolute_by_its_slash(d: Seq<char>)
    ensures
        is_absolute(d) <==> d.len() > 0 && d[0] == '/',
{
    reveal_strlit("/");
    if d.len() > 0 {
        assert(d.take(1)[0] == d[0]);
        assert(d[0] == '/' ==> d.take(1) =~= "/"@);
    }
}

/// Four beginnings name a sensor, whatever follows them.
pub proof fn a_sensor_is_known_by_its_beginning(path: Seq<char>)
    ensures
        is_sensor(path) <==> "battery."@.is_prefix_of(path) || "thermal."@.is_prefix_of(path)
            || "power.draw"@.is_prefix_of(path) || "fan."@.is_prefix_of(path),
{
    lemma_beginning(path, "battery."@);
    lemma_beginning(path, "thermal."@);
    lemma_beginning(path, "power.draw"@);
    lemma_beginning(path, "fan."@);
}

proof fn lemma_beginning(s: Seq<char>, p: Seq<char>)
    ensures
        text::begins(s, p) <==> p.is_prefix_of(s),
{
    if p.len() <= s.len() {
        assert(s.take(p.len() as int) =~= s.subrange(0, p.len() as int));
    }
}

/// A name of a variable is not empty and holds no sign of assignment, and nothing
/// else is asked of it.
pub proof fn a_variable_name_grows_by_any_other_character(s: Seq<char>, c: char)
    ensures
        !is_var_name(Seq::empty()),
        is_var_name(seq![c]) <==> c != '=',
        s.len() > 0 ==> (is_var_name(s.push(c)) <==> is_var_name(s) && c != '='),
{
    let t = s.push(c);
    assert(t[s.len() as int] == c);
    assert(seq![c][0] == c);
    if t.contains('=') && c != '=' {
        let i = choose|i: int| 0 <= i < t.len() && t[i] == '=';
        assert(s[i] == '=');
    }
    if s.contains('=') {
        let i = choose|i: int| 0 <= i < s.len() && s[i] == '=';
        assert(t[i] == '=');
    }
}

/// A fact is at fault if and only if its path came before, or names a sensor, or it
/// changes on hotplug and is read late. What is said of it is true of it.
pub proof fn a_fact_is_at_fault_for_one_of_three(facts: Seq<FactForm>, i: int, e: CatalogError)
    requires
        0 <= i < facts.len(),
    ensures
        fact_fault(facts, i) is Some <==> {
            ||| exists|j: int| 0 <= j < i && (#[trigger] facts[j]).path@ == facts[i].path@
            ||| is_sensor(facts[i].path@)
            ||| facts[i].volatility is Hotplugvolatile && (facts[i].epoch is E2
                || facts[i].epoch is Atsubmit)
        },
        fact_fault(facts, i) is Some && is_fact_error(e, facts[i], fact_fault(facts, i)->0)
            ==> match e {
            CatalogError::DuplicateFact { path } => path@ == facts[i].path@ && exists|j: int|
                0 <= j < i && (#[trigger] facts[j]).path@ == facts[i].path@,
            CatalogError::SensorAsConfig(path) => path@ == facts[i].path@ && is_sensor(path@),
            CatalogError::VolatileAtLateEpoch { path, volatility, epoch } => path@ == facts[i].path@
                && volatility is Hotplugvolatile && epoch == facts[i].epoch && (epoch is E2
                || epoch is Atsubmit),
            _ => false,
        },
{
}

/// What is handed over is what was declared: every fact in its place, to the
/// letter, under the variable and for the time that were given.
pub proof fn a_handoff_is_what_was_declared(f: HandoffForm, h: Handoff, i: int)
    requires
        hands_over(f, h),
    ensures
        h.name@ == f.name@,
        h.env_var@ == f.env_var@,
        h.validity_secs == f.validity_secs,
        h.transport == f.transport,
        h.facts@.len() == f.facts@.len(),
        0 <= i < f.facts@.len() ==> {
            &&& h.facts@[i].path@ == f.facts@[i].path@
            &&& h.facts@[i].volatility == f.facts@[i].volatility
            &&& h.facts@[i].epoch == f.facts@[i].epoch
        },
{
    if 0 <= i < f.facts@.len() {
        assert(h.facts@[i].path == f.facts@[i].path);
    }
}

} // verus!
