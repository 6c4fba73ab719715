//! The tool that updates metric files: what it plans for a file, and what it
//! reports.

use vstd::prelude::*;
use vstd::string::StringExecFns;
use crate::text::{concat, decimal_text, number_text};

verus! {

/// The update of one metric file.
#[derive(Debug)]
pub struct FileUpdate {
    pub id: uuid::Uuid,
    pub yml_content: String,
}

/// The parameters of the tool.
#[derive(Debug)]
pub struct UpdateFilesParams {
    pub files: Vec<FileUpdate>,
}

/// The tool, for the agent in whose state it notes that a review is needed.
pub struct ModifyMetricFilesTool<A> {
    agent: A,
}

impl<A> ModifyMetricFilesTool<A> {
    /// The agent of the tool.
    pub closed spec fn agent_view(&self) -> A {
        self.agent
    }

    /// The tool for an agent.
    pub fn new(agent: A) -> (r: Self)
        ensures
            r.agent_view() == agent,
    {
        ModifyMetricFilesTool { agent }
    }

    /// The agent of the tool.
    pub fn agent(&self) -> (r: &A)
        ensures
            *r == self.agent_view(),
    {
        &self.agent
    }

    /// The name by which the model calls the tool.
    pub fn get_name(&self) -> (r: String)
        ensures
            r@ == "update_metrics"@,
    {
        String::from_str("update_metrics")
    }
}

/// What became of one step of the update of a file, noted at the time `T`.
#[derive(Debug)]
pub struct ModificationResult<T> {
    pub file_id: uuid::Uuid,
    pub file_name: String,
    pub success: bool,
    pub error: Option<String>,
    pub modification_type: String,
    pub timestamp: T,
    pub duration: i64,
}

/// Notes what became of one step of the update of a file: a success where
/// there is no error.
pub fn track_modification<T>(
    file_id: uuid::Uuid,
    file_name: String,
    error: Option<String>,
    modification_type: &str,
    timestamp: T,
    duration: i64,
) -> (r: ModificationResult<T>)
    ensures
        r.file_id == file_id,
        r.file_name == file_name,
        r.success == (error is None),
        r.error == error,
        r.modification_type@ == modification_type@,
        r.timestamp == timestamp,
        r.duration == duration,
{
    let success = error.is_none();
    ModificationResult {
        file_id,
        file_name,
        success,
        error,
        modification_type: String::from_str(modification_type),
        timestamp,
        duration,
    }
}

/// What is done with the new content of a metric file.
#[derive(Clone, Copy, Debug, PartialEq, Eq, Structural)]
pub enum UpdatePlan {
    /// The query is the old one and its metadata are at hand: they are kept,
    /// and the query is not validated again.
    KeepMetadata,
    /// The query is validated against the first dataset of the metric.
    Validate,
}

/// What is noted of an update that takes place without validation.
pub open spec fn skipped_note() -> Seq<char> {
    "SQL unchanged, validation skipped"@
}

/// What is noted of an update that takes place without validation.
pub fn skipped_validation_note() -> (r: String)
    ensures
        r@ == skipped_note(),
{
    String::from_str("SQL unchanged, validation skipped")
}

/// Plans the update of a metric file whose new content names
/// `dataset_count` datasets. A metric without datasets cannot be updated.
pub fn plan_metric_file_update(dataset_count: usize, sql_changed: bool, has_metadata: bool) -> (r:
    Result<UpdatePlan, String>)
    ensures
        match r {
            Err(e) => dataset_count == 0 && e@ == "Missing required field 'dataset_ids'"@,
            Ok(UpdatePlan::KeepMetadata) => dataset_count > 0 && !sql_changed && has_metadata,
            Ok(UpdatePlan::Validate) => dataset_count > 0 && (sql_changed || !has_metadata),
        },
{
    if dataset_count == 0 {
        Err(String::from_str("Missing required field 'dataset_ids'"))
    } else if !sql_changed && has_metadata {
        Ok(UpdatePlan::KeepMetadata)
    } else {
        Ok(UpdatePlan::Validate)
    }
}

/// The error of a query that is not valid.
pub fn sql_validation_error(error: &str) -> (r: String)
    ensures
        r@ == "SQL validation failed: "@ + error@,
{
    concat("SQL validation failed: ", error)
}

/// The error of a content that is not a valid metric.
pub fn yaml_validation_error(error: &str) -> (r: String)
    ensures
        r@ == "Failed to validate YAML: "@ + error@,
{
    concat("Failed to validate YAML: ", error)
}

/// The number of the next version of a file: one more than the latest, and
/// 1 for a file without versions.
pub fn next_version_number(latest: Option<i32>) -> (r: i32)
    requires
        latest matches Some(v) ==> v < i32::MAX,
    ensures
        r == (match latest {
            Some(v) => v + 1,
            None => 1,
        }),
{
    match latest {
        Some(v) => v + 1,
        None => 1,
    }
}

/// The ending of a word for `n` things.
pub open spec fn plural(n: nat) -> Seq<char> {
    if n == 1 {
        ""@
    } else {
        "s"@
    }
}

/// What the tool reports of `successes` files that were modified and
/// `failures` files that were not.
pub open spec fn summary_text(successes: nat, failures: nat) -> Seq<char> {
    if successes > 0 && failures == 0 {
        "Successfully modified "@ + decimal_text(successes) + " metric file"@ + plural(successes)
            + "."@
    } else if successes == 0 && failures > 0 {
        "Failed to modify "@ + decimal_text(failures) + " metric file"@ + plural(failures) + "."@
    } else if successes > 0 && failures > 0 {
        "Successfully modified "@ + decimal_text(successes) + " metric file"@ + plural(successes)
            + ", "@ + decimal_text(failures) + " failed."@
    } else {
        "No metric files were processed."@
    }
}

/// The ending of a word for `n` things.
fn plural_ending(n: usize) -> (r: &'static str)
    ensures
        r@ == plural(n as nat),
{
    if n == 1 {
        ""
    } else {
        "s"
    }
}

/// What the tool reports of the files that were modified and of those that
/// were not.
pub fn summary_message(successes: usize, failures: usize) -> (r: String)
    ensures
        r@ == summary_text(successes as nat, failures as nat),
{
    if successes > 0 && failures == 0 {
        let mut out = String::from_str("Successfully modified ");
        out.append(number_text(successes).as_str());
        out.append(" metric file");
        out.append(plural_ending(successes));
        out.append(".");
        out
    } else if successes == 0 && failures > 0 {
        let mut out = String::from_str("Failed to modify ");
        out.append(number_text(failures).as_str());
        out.append(" metric file");
        out.append(plural_ending(failures));
        out.append(".");
        out
    } else if successes > 0 && failures > 0 {
        let mut out = String::from_str("Successfully modified ");
        out.append(number_text(successes).as_str());
        out.append(" metric file");
        out.append(plural_ending(successes));
        out.append(", ");
        out.append(number_text(failures).as_str());
        out.append(" failed.");
        out
    } else {
        String::from_str("No metric files were processed.")
    }
}

/// What the tool says of a file that could not be modified.
pub fn failed_modification_message(file_name: &str, error: &str) -> (r: String)
    ensures
        r@ == "Failed to modify '"@ + file_name@ + "': "@ + error@
            + ".\\n\\nPlease attempt to modify the metric again. This error could be due to:\\n- Using a dataset that doesn't exist (please reevaluate the available datasets in the chat conversation)\\n- Invalid configuration in the metric file\\n- Special characters in the metric name or SQL query\\n- Syntax errors in the SQL query"@,
{
    let mut out = String::from_str("Failed to modify '");
    out.append(file_name);
    out.append("': ");
    out.append(error);
    out.append(
        ".\\n\\nPlease attempt to modify the metric again. This error could be due to:\\n- Using a dataset that doesn't exist (please reevaluate the available datasets in the chat conversation)\\n- Invalid configuration in the metric file\\n- Special characters in the metric name or SQL query\\n- Syntax errors in the SQL query",
    );
    out
}

/// Whether the tool asks for a review: it does where no file failed.
pub fn review_needed(failures: usize) -> (r: bool)
    ensures
        r == (failures == 0),
{
    failures == 0
}

} // verus!
