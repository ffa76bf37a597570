//! The run configuration: the scenario that may override the decision, and the
//! deterministic identifier of a run.

use vstd::prelude::*;
use vstd::string::StringSliceAdditionalSpecFns;
use crate::ids::{uuid_v5, uuid_v5_of, NAMESPACE_URL};
use crate::clock::UtcInstant;
use crate::text::{chars_of, eq_str, lower_chars, push_int_decimal, push_str, spec_int_decimal, spec_lower, string_from_chars};

verus! {

/// Which result a run is asked to produce (`Auto` lets the rules decide).
#[derive(Debug, Clone, Copy, PartialEq, Eq, Structural, Hash)]
pub enum Scenario {
    Auto,
    Okay,
    Violacao,
    Absterse,
}

impl Scenario {
    /// The upper-case name of the scenario.
    pub open spec fn spec_name(self) -> Seq<char> {
        match self {
            Scenario::Auto => "AUTO"@,
            Scenario::Okay => "OK"@,
            Scenario::Violacao => "VIOLACAO"@,
            Scenario::Absterse => "ABSTERSE"@,
        }
    }

    /// The upper-case name of the scenario.
    pub fn as_str(self) -> (s: &'static str)
        ensures
            s@ == self.spec_name(),
    {
        match self {
            Scenario::Auto => "AUTO",
            Scenario::Okay => "OK",
            Scenario::Violacao => "VIOLACAO",
            Scenario::Absterse => "ABSTERSE",
        }
    }

    /// Reads the scenario setting (absent means `auto`), ignoring ASCII case.
    pub fn from_env(raw: Option<String>) -> (r: Result<Scenario, String>)
        ensures
            match spec_scenario_of(spec_lower(setting_text(raw))) {
                Some(s) => r == Ok::<Scenario, String>(s),
                None => r matches Err(m) && m@ == invalid_scenario_message(spec_lower(setting_text(raw))),
            },
    {
        let value = match raw {
            Some(v) => chars_of(v.as_str()),
            None => chars_of("auto"),
        };
        let v = lower_chars(&value);
        if eq_str(&v, "auto") {
            Ok(Scenario::Auto)
        } else if eq_str(&v, "ok") {
            Ok(Scenario::Okay)
        } else if eq_str(&v, "violacao") {
            Ok(Scenario::Violacao)
        } else if eq_str(&v, "absterse") || eq_str(&v, "abster-se") || eq_str(&v, "abstain") {
            Ok(Scenario::Absterse)
        } else {
            let mut m = String::new();
            push_str(&mut m, "invalid NEXOIA_SCENARIO value '");
            push_str(&mut m, string_from_chars(&v).as_str());
            push_str(&mut m, "'. Use auto, ok, violacao, or absterse.");
            Err(m)
        }
    }
}

/// The text of a setting, `auto` when it is absent.
pub open spec fn setting_text(raw: Option<String>) -> Seq<char> {
    match raw {
        Some(v) => v@,
        None => "auto"@,
    }
}

/// The scenario a lower-cased name denotes.
pub open spec fn spec_scenario_of(v: Seq<char>) -> Option<Scenario> {
    if v == "auto"@ {
        Some(Scenario::Auto)
    } else if v == "ok"@ {
        Some(Scenario::Okay)
    } else if v == "violacao"@ {
        Some(Scenario::Violacao)
    } else if v == "absterse"@ || v == "abster-se"@ || v == "abstain"@ {
        Some(Scenario::Absterse)
    } else {
        None
    }
}

/// The message for a name that denotes no scenario.
pub open spec fn invalid_scenario_message(v: Seq<char>) -> Seq<char> {
    "invalid NEXOIA_SCENARIO value '"@ + v + "'. Use auto, ok, violacao, or absterse."@
}

/// The configuration of a run.
#[derive(Debug, Clone)]
pub struct State {
    pub project: String,
    pub run_id: u128,
    pub generated_at_utc: UtcInstant,
    pub scenario: Scenario,
    pub subject: String,
    pub threshold: i64,
    pub input_value: Option<i64>,
}

/// How an optional integer is written for debugging (`Some(60)`, `None`).
pub open spec fn optional_int_text(v: Option<i64>) -> Seq<char> {
    match v {
        Some(x) => "Some("@ + spec_int_decimal(x as int) + ")"@,
        None => "None"@,
    }
}

/// The name a run identifier is derived from:
/// `project|SCENARIO|subject|threshold|input`.
pub open spec fn run_id_name(
    project: Seq<char>,
    scenario: Scenario,
    subject: Seq<char>,
    threshold: i64,
    input_value: Option<i64>,
) -> Seq<char> {
    project + "|"@ + scenario.spec_name() + "|"@ + subject + "|"@ + spec_int_decimal(threshold as int) + "|"@
        + optional_int_text(input_value)
}

/// The identifier of a run: the version-5 UUID, in the URL namespace, of the
/// run's name. The same inputs always give the same identifier.
pub fn deterministic_run_id(
    project: &str,
    scenario: Scenario,
    subject: &str,
    threshold: i64,
    input_value: Option<i64>,
) -> (id: u128)
    ensures
        id == uuid_v5_of(NAMESPACE_URL, vstd::utf8::encode_utf8(
            run_id_name(project@, scenario, subject@, threshold, input_value),
        )),
        id != 0,
{
    let mut name = String::new();
    push_str(&mut name, project);
    push_str(&mut name, "|");
    push_str(&mut name, scenario.as_str());
    push_str(&mut name, "|");
    push_str(&mut name, subject);
    push_str(&mut name, "|");
    push_int_decimal(&mut name, threshold);
    push_str(&mut name, "|");
    match input_value {
        Some(x) => {
            push_str(&mut name, "Some(");
            push_int_decimal(&mut name, x);
            push_str(&mut name, ")");
        },
        None => {
            push_str(&mut name, "None");
        },
    }
    assert(name@ =~= run_id_name(project@, scenario, subject@, threshold, input_value));
    let text = name.as_str();
    let id = uuid_v5(NAMESPACE_URL, text.as_bytes());
    assert(id != 0) by (bit_vector)
        requires
            (id >> 76u128) & 0xfu128 == 5,
    ;
    id
}

// ------------------------------------------------------------------
// Settings
// ------------------------------------------------------------------

/// What reading an environment setting gave.
#[derive(Debug, Clone)]
pub enum Setting {
    Absent,
    Present(String),
    Unreadable(String),
}

/// What `str::parse::<i64>` gives for a text: the value, or the text of
/// its error.
pub uninterp spec fn i64_parse_of(text: Seq<char>) -> Result<i64, Seq<char>>;

/// Calls `str::parse::<i64>`; the result, with the error as its text, is
/// named `i64_parse_of`.
#[verifier::external_body]
fn parse_i64(text: &str) -> (r: Result<i64, String>)
    ensures
        match i64_parse_of(text@) {
            Ok(v) => r == Ok::<i64, String>(v),
            Err(m) => r matches Err(x) && x@ == m,
        },
{
    match text.parse::<i64>() {
        Ok(v) => Ok(v),
        Err(e) => Err(e.to_string()),
    }
}

/// An integer setting: absent or blank gives the default; otherwise its
/// text must parse, and an unreadable setting is an error.
pub open spec fn spec_int_setting(name: Seq<char>, raw: Setting, default: Option<i64>) -> Result<Option<i64>, Seq<char>> {
    match raw {
        Setting::Absent => Ok(default),
        Setting::Unreadable(e) => Err("failed to read "@ + name + ": "@ + e@),
        Setting::Present(v) => if crate::text::spec_trim(v@).len() == 0 {
            Ok(default)
        } else {
            match i64_parse_of(v@) {
                Ok(x) => Ok(Some(x)),
                Err(e) => Err("invalid "@ + name + " value '"@ + v@ + "': "@ + e),
            }
        },
    }
}

fn int_setting(name: &str, raw: &Setting, default: Option<i64>) -> (r: Result<Option<i64>, String>)
    ensures
        match spec_int_setting(name@, *raw, default) {
            Ok(v) => r == Ok::<Option<i64>, String>(v),
            Err(m) => r matches Err(x) && x@ == m,
        },
{
    match raw {
        Setting::Absent => Ok(default),
        Setting::Unreadable(e) => {
            let mut m = crate::text::to_string("failed to read ");
            push_str(&mut m, name);
            push_str(&mut m, ": ");
            push_str(&mut m, e.as_str());
            Err(m)
        },
        Setting::Present(v) => {
            let t = crate::text::trim_chars(&crate::text::chars_of(v.as_str()));
            if t.len() == 0 {
                return Ok(default);
            }
            match parse_i64(v.as_str()) {
                Ok(x) => Ok(Some(x)),
                Err(e) => {
                    let mut m = crate::text::to_string("invalid ");
                    push_str(&mut m, name);
                    push_str(&mut m, " value '");
                    push_str(&mut m, v.as_str());
                    push_str(&mut m, "': ");
                    push_str(&mut m, e.as_str());
                    Err(m)
                },
            }
        },
    }
}

/// The text of an optional setting.
pub open spec fn present_text(raw: Setting) -> Option<String> {
    match raw {
        Setting::Present(v) => Some(v),
        _ => None,
    }
}

/// The configuration read from the settings: the scenario, the subject
/// (`default-evaluation` when absent), the threshold (50 by default), the
/// input value (60 by default), stamped `now`, with the run identifier
/// derived from them.
pub open spec fn spec_from_settings(
    scenario: Setting,
    subject: Setting,
    threshold: Setting,
    input: Setting,
) -> Result<(Scenario, Seq<char>, i64, Option<i64>), Seq<char>> {
    let sv = spec_lower(setting_text(present_text(scenario)));
    match spec_scenario_of(sv) {
        None => Err(invalid_scenario_message(sv)),
        Some(sc) => {
            let subj = match subject {
                Setting::Present(v) => v@,
                _ => "default-evaluation"@,
            };
            match spec_int_setting("NEXOIA_THRESHOLD"@, threshold, Some(50)) {
                Err(e) => Err(e),
                Ok(t) => match spec_int_setting("NEXOIA_INPUT_VALUE"@, input, Some(60)) {
                    Err(e) => Err(e),
                    Ok(iv) => Ok((sc, subj, match t { Some(x) => x, None => 50 }, iv)),
                },
            }
        },
    }
}

impl State {
    /// The configuration read from the settings, stamped `now`.
    pub fn from_settings(scenario: Setting, subject: Setting, threshold: Setting, input: Setting, now: UtcInstant) -> (r: Result<
        State,
        String,
    >)
        ensures
            match spec_from_settings(scenario, subject, threshold, input) {
                Err(m) => r matches Err(x) && x@ == m,
                Ok((sc, subj, t, iv)) => r matches Ok(st) && st.project@ == "nexoia"@ && st.scenario == sc
                    && st.subject@ == subj && st.threshold == t && st.input_value == iv && st.generated_at_utc == now
                    && st.run_id == uuid_v5_of(NAMESPACE_URL, vstd::utf8::encode_utf8(run_id_name("nexoia"@, sc, subj, t, iv))),
            },
    {
        let sc = match Scenario::from_env(present_text_exec(&scenario)) {
            Ok(s) => s,
            Err(e) => return Err(e),
        };
        let subj = match &subject {
            Setting::Present(v) => v.clone(),
            _ => crate::text::to_string("default-evaluation"),
        };
        let t = match int_setting("NEXOIA_THRESHOLD", &threshold, Some(50)) {
            Ok(Some(x)) => x,
            Ok(None) => 50,
            Err(e) => return Err(e),
        };
        let iv = match int_setting("NEXOIA_INPUT_VALUE", &input, Some(60)) {
            Ok(v) => v,
            Err(e) => return Err(e),
        };
        let project = crate::text::to_string("nexoia");
        let run_id = deterministic_run_id(project.as_str(), sc, subj.as_str(), t, iv);
        Ok(State { project, run_id, generated_at_utc: now, scenario: sc, subject: subj, threshold: t, input_value: iv })
    }
}

fn present_text_exec(raw: &Setting) -> (r: Option<String>)
    ensures
        match present_text(*raw) {
            Some(v) => r matches Some(x) && x@ == v@,
            None => r is None,
        },
{
    match raw {
        Setting::Present(v) => Some(v.clone()),
        _ => None,
    }
}

} // verus!
