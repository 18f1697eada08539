//! What the loading screen reports while a log is read: five steps, each with
//! a name, a share of the whole and a message.

use crate::text::{decimal, decimal_text};
use vstd::prelude::*;
use vstd::string::StringExecFns;

verus! {

/// The steps of loading a log, in order.
#[derive(Debug, Clone, Copy, PartialEq, Eq, Structural)]
pub enum LoadStep {
    Read,
    Decode,
    Parse,
    Group,
    Sort,
}

/// One report to the loading screen: step `step` of five, its name, the part
/// of the whole that is done in thousandths, and a message.
#[derive(Debug, Clone, PartialEq, Eq)]
pub struct Progress {
    pub step: usize,
    pub step_name: String,
    pub permille: u16,
    pub message: String,
}

/// While records are extracted, progress is reported once in this many lines.
pub const REPORT_INTERVAL: u64 = 1000;

/// The number of a step, from 1 to 5.
pub open spec fn step_number(step: LoadStep) -> int {
    match step {
        LoadStep::Read => 1,
        LoadStep::Decode => 2,
        LoadStep::Parse => 3,
        LoadStep::Group => 4,
        LoadStep::Sort => 5,
    }
}

/// The name of a step.
pub open spec fn step_name(step: LoadStep) -> Seq<char> {
    match step {
        LoadStep::Read => "Reading audit log file"@,
        LoadStep::Decode => "Converting to UTF-8 text"@,
        LoadStep::Parse => "Parsing audit entries"@,
        LoadStep::Group => "Grouping entries by audit ID"@,
        LoadStep::Sort => "Sorting by timestamp"@,
    }
}

/// The message shown when a step begins.
pub open spec fn start_message(step: LoadStep) -> Seq<char> {
    match step {
        LoadStep::Read => "Reading file from disk..."@,
        LoadStep::Decode => "Processing file contents..."@,
        LoadStep::Parse => "Extracting audit log entries..."@,
        LoadStep::Group => "Creating audit groups..."@,
        LoadStep::Sort => "Sorting groups (most recent first)..."@,
    }
}

/// The thousandths done while `line_num` of `total_lines` lines are scanned:
/// the step that extracts records takes the share from 400 to 600.
pub open spec fn parsing_permille(line_num: int, total_lines: int) -> int {
    if total_lines <= 0 || line_num >= total_lines {
        600
    } else {
        400 + (line_num * 200) / total_lines
    }
}

/// The message shown while records are extracted.
pub open spec fn parsing_message(entries_found: nat) -> Seq<char> {
    if entries_found > 0 {
        "Found "@ + decimal(entries_found) + " entries so far..."@
    } else {
        "Scanning log file..."@
    }
}

/// The loading screen: it decides what is reported and when.
pub struct LoadingScreen;

impl LoadingScreen {
    /// A loading screen.
    pub fn new() -> (screen: LoadingScreen)
        ensures
            screen == LoadingScreen,
    {
        LoadingScreen
    }

    /// The name of a step.
    pub fn name_of(step: LoadStep) -> (name: &'static str)
        ensures
            name@ == step_name(step),
    {
        match step {
            LoadStep::Read => "Reading audit log file",
            LoadStep::Decode => "Converting to UTF-8 text",
            LoadStep::Parse => "Parsing audit entries",
            LoadStep::Group => "Grouping entries by audit ID",
            LoadStep::Sort => "Sorting by timestamp",
        }
    }

    /// The number of a step, from 1 to 5.
    pub fn number_of(step: LoadStep) -> (number: usize)
        ensures
            number == step_number(step),
    {
        match step {
            LoadStep::Read => 1,
            LoadStep::Decode => 2,
            LoadStep::Parse => 3,
            LoadStep::Group => 4,
            LoadStep::Sort => 5,
        }
    }

    /// The report at the start of a step: each step takes a fifth of the
    /// whole, so step `n` starts with `n - 1` fifths done.
    pub fn step_started(&self, step: LoadStep) -> (progress: Progress)
        ensures
            progress.step == step_number(step),
            progress.step_name@ == step_name(step),
            progress.permille == (step_number(step) - 1) * 200,
            progress.message@ == start_message(step),
    {
        let message = match step {
            LoadStep::Read => "Reading file from disk...",
            LoadStep::Decode => "Processing file contents...",
            LoadStep::Parse => "Extracting audit log entries...",
            LoadStep::Group => "Creating audit groups...",
            LoadStep::Sort => "Sorting groups (most recent first)...",
        };
        let number = Self::number_of(step);
        Progress {
            step: number,
            step_name: String::from_str(Self::name_of(step)),
            permille: ((number - 1) * 200) as u16,
            message: String::from_str(message),
        }
    }

    /// The report at the end of a step, with the message that sums it up:
    /// step `n` ends with `n` fifths done.
    pub fn step_finished(&self, step: LoadStep, message: String) -> (progress: Progress)
        ensures
            progress.step == step_number(step),
            progress.step_name@ == step_name(step),
            progress.permille == step_number(step) * 200,
            progress.message == message,
    {
        let number = Self::number_of(step);
        Progress {
            step: number,
            step_name: String::from_str(Self::name_of(step)),
            permille: (number * 200) as u16,
            message,
        }
    }

    /// The report after line `line_num` of `total_lines` while records are
    /// extracted: there is one for every thousandth line, with the share of
    /// lines scanned and the number of records found so far.
    pub fn parsing_progress(&self, line_num: u64, total_lines: u64, entries_found: usize) -> (progress:
        Option<Progress>)
        ensures
            progress is Some <==> line_num % REPORT_INTERVAL == 0,
            progress matches Some(p) ==> {
                &&& p.step == 3
                &&& p.step_name@ == step_name(LoadStep::Parse)
                &&& p.permille == parsing_permille(line_num as int, total_lines as int)
                &&& p.message@ == parsing_message(entries_found as nat)
            },
    {
        if line_num % REPORT_INTERVAL != 0 {
            return None;
        }
        let permille: u16 = if total_lines == 0 || line_num >= total_lines {
            600
        } else {
            let scaled = (line_num as u128 * 200) / (total_lines as u128);
            assert(scaled == (line_num * 200) / (total_lines as int) && scaled < 200) by (nonlinear_arith)
                requires
                    scaled == (line_num as int * 200) / (total_lines as int),
                    0 <= line_num < total_lines,
            ;
            400 + scaled as u16
        };
        let message = if entries_found > 0 {
            let mut text = String::from_str("Found ");
            text.append(decimal_text(entries_found as u64).as_str());
            text.append(" entries so far...");
            text
        } else {
            String::from_str("Scanning log file...")
        };
        Some(
            Progress {
                step: 3,
                step_name: String::from_str(Self::name_of(LoadStep::Parse)),
                permille,
                message,
            },
        )
    }

    /// The title of a report: the step's number out of five, and its name.
    pub fn step_title(&self, progress: &Progress) -> (title: String)
        ensures
            title@ == "Step "@ + decimal(progress.step as nat) + "/5: "@ + progress.step_name@,
    {
        let mut title = String::from_str("Step ");
        title.append(decimal_text(progress.step as u64).as_str());
        title.append("/5: ");
        title.append(progress.step_name.as_str());
        title
    }

    /// A message that names a count: the label, a colon and the number.
    pub fn count_message(&self, label: &str, count: usize) -> (message: String)
        ensures
            message@ == label@ + ": "@ + decimal(count as nat),
    {
        let mut message = String::from_str(label);
        message.append(": ");
        message.append(decimal_text(count as u64).as_str());
        message
    }

    /// The whole percent done, for the gauge.
    pub fn percent(&self, progress: &Progress) -> (percent: u16)
        ensures
            percent == progress.permille / 10,
    {
        progress.permille / 10
    }
}

} // verus!
