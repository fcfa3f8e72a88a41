//! Configuration vocabulary: the registry value names the agent reads at
//! startup, and the kill policy those values select.
//!
//! Reading the registry is operating-system I/O and stays with the embedding
//! application; this module holds the closed set of parameter names and the
//! interpretation of the kill-policy value.

use vstd::prelude::*;
use vstd::string::StrSliceExecFns;

verus! {

/// The configuration parameters the agent reads at startup.
#[derive(Debug, Clone, Copy, PartialEq, Eq, Hash, Structural)]
pub enum Param {
    /// Directory of debug output such as prediction traces.
    DebugPath,
    /// Directory of incident reports and exclusion lists.
    ConfigPath,
    /// The agent's version string.
    NumVersion,
    /// Directory of helper executables.
    UtilsPath,
    /// Application identity used by notifications.
    AppId,
    /// Whether a malicious family is suspended or killed.
    KillPolicy,
}

/// The registry value name of each parameter.
pub open spec fn param_key(p: Param) -> Seq<char> {
    match p {
        Param::DebugPath => "DEBUG_PATH"@,
        Param::ConfigPath => "CONFIG_PATH"@,
        Param::NumVersion => "NUM_VERSION"@,
        Param::UtilsPath => "UTILS_PATH"@,
        Param::AppId => "APP_ID"@,
        Param::KillPolicy => "KILL_POLICY"@,
    }
}

impl Param {
    /// The registry value name a parameter is stored under.
    pub fn convert_to_str(param: &Param) -> (r: &'static str)
        ensures
            r@ == param_key(*param),
    {
        match param {
            Param::DebugPath => "DEBUG_PATH",
            Param::ConfigPath => "CONFIG_PATH",
            Param::NumVersion => "NUM_VERSION",
            Param::UtilsPath => "UTILS_PATH",
            Param::AppId => "APP_ID",
            Param::KillPolicy => "KILL_POLICY",
        }
    }

    /// Every parameter, in the order the agent loads them.
    pub fn all() -> (r: Vec<Param>)
        ensures
            r@ == seq![
                Param::DebugPath,
                Param::ConfigPath,
                Param::NumVersion,
                Param::UtilsPath,
                Param::AppId,
                Param::KillPolicy,
            ],
    {
        let mut r: Vec<Param> = Vec::new();
        r.push(Param::DebugPath);
        r.push(Param::ConfigPath);
        r.push(Param::NumVersion);
        r.push(Param::UtilsPath);
        r.push(Param::AppId);
        r.push(Param::KillPolicy);
        proof {
            assert(r@ =~= seq![
                Param::DebugPath,
                Param::ConfigPath,
                Param::NumVersion,
                Param::UtilsPath,
                Param::AppId,
                Param::KillPolicy,
            ]);
        }
        r
    }
}

/// What to do with a process family judged malicious.
#[derive(Debug, Clone, Copy, PartialEq, Eq, Structural)]
pub enum KillPolicy {
    /// Suspend the family's processes.
    Suspend,
    /// Kill the family's processes.
    Kill,
}

/// The policy a configured value selects: only the exact value `SUSPEND`
/// selects suspension; every other value, the expected `KILL` included,
/// selects killing.
pub open spec fn kill_policy_of(s: Seq<char>) -> KillPolicy {
    if s == "SUSPEND"@ {
        KillPolicy::Suspend
    } else {
        KillPolicy::Kill
    }
}

/// Character-wise string equality.
pub fn str_eq(a: &str, b: &str) -> (r: bool)
    ensures
        r <==> a@ == b@,
{
    let na = a.unicode_len();
    let nb = b.unicode_len();
    if na != nb {
        return false;
    }
    let mut i: usize = 0;
    while i < na
        invariant
            i <= na,
            na == a@.len(),
            na == b@.len(),
            forall|j: int| 0 <= j < i ==> a@[j] == b@[j],
        decreases na - i,
    {
        if a.get_char(i) != b.get_char(i) {
            return false;
        }
        i = i + 1;
    }
    proof {
        assert(a@ =~= b@);
    }
    true
}

impl KillPolicy {
    /// Interprets a configured kill-policy value.
    pub fn from_config_value(s: &str) -> (r: KillPolicy)
        ensures
            r == kill_policy_of(s@),
    {
        if str_eq(s, "SUSPEND") {
            KillPolicy::Suspend
        } else {
            KillPolicy::Kill
        }
    }
}

} // verus!
