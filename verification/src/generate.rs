//! The generate command: where the description of a model is written, and
//! what is counted while the models are gathered.

use vstd::prelude::*;
use vstd::string::StringExecFns;
use crate::message::{clone_text, text_view};
use crate::paths::{
    file_stem_of,
    joined,
    parent_of,
    path_display,
    path_as_text,
    path_file_stem,
    path_to_text,
    path_text,
    path_clone,
    path_from_text,
    path_join,
    path_of,
    path_parent,
    path_strip_prefix,
    paths_equal,
    same_path,
    stripped,
};
use crate::text::{
    compile_pattern,
    concat,
    concat3,
    group_of_match,
    pattern_compiles,
    regex_group,
    same_text,
};

verus! {

/// The configuration of a project.
#[derive(Debug)]
pub struct BusterConfig {
    pub data_source_name: Option<String>,
    pub schema: Option<String>,
    pub database: Option<String>,
    pub exclude_files: Option<Vec<String>>,
    pub exclude_tags: Option<Vec<String>>,
    pub model_paths: Option<Vec<String>>,
}

/// The generate command.
#[derive(Debug)]
pub struct GenerateCommand {
    source_path: std::path::PathBuf,
    destination_path: std::path::PathBuf,
    data_source_name: Option<String>,
    schema: Option<String>,
    database: Option<String>,
    config: BusterConfig,
    maintain_directory_structure: bool,
}

/// The view of an optional list of texts.
pub open spec fn optional_texts_view(texts: Option<Vec<String>>) -> Option<Seq<Seq<char>>> {
    match texts {
        Some(v) => Some(crate::agent::texts_view(v@)),
        None => None,
    }
}

/// What a generate command holds.
pub struct GenerateCommandView {
    pub source_path: std::path::PathBuf,
    pub destination_path: std::path::PathBuf,
    pub data_source_name: Option<Seq<char>>,
    pub schema: Option<Seq<char>>,
    pub database: Option<Seq<char>>,
    pub config_data_source_name: Option<Seq<char>>,
    pub config_schema: Option<Seq<char>>,
    pub config_database: Option<Seq<char>>,
    pub config_exclude_files: Option<Seq<Seq<char>>>,
    pub config_exclude_tags: Option<Seq<Seq<char>>>,
    pub config_model_paths: Option<Seq<Seq<char>>>,
    pub maintain_directory_structure: bool,
}

impl View for GenerateCommand {
    type V = GenerateCommandView;

    closed spec fn view(&self) -> GenerateCommandView {
        GenerateCommandView {
            source_path: self.source_path,
            destination_path: self.destination_path,
            data_source_name: text_view(self.data_source_name),
            schema: text_view(self.schema),
            database: text_view(self.database),
            config_data_source_name: text_view(self.config.data_source_name),
            config_schema: text_view(self.config.schema),
            config_database: text_view(self.config.database),
            config_exclude_files: optional_texts_view(self.config.exclude_files),
            config_exclude_tags: optional_texts_view(self.config.exclude_tags),
            config_model_paths: optional_texts_view(self.config.model_paths),
            maintain_directory_structure: self.maintain_directory_structure,
        }
    }
}

/// A path, or another where it is absent.
pub open spec fn path_or(path: Option<std::path::PathBuf>, other: std::path::PathBuf) -> std::path::PathBuf {
    match path {
        Some(p) => p,
        None => other,
    }
}

/// The file to which the description of a model is written. With a
/// destination other than the source, the file lies in the destination,
/// under the directories that lead from the source to the model's file
/// where the structure of the directories is kept, and directly in it where
/// it is not. Else the file lies beside the model's file.
pub open spec fn output_path(
    command: GenerateCommandView,
    model_name: Seq<char>,
    source_file: std::path::PathBuf,
) -> std::path::PathBuf {
    let file = path_of(model_name + ".yml"@);
    if !same_path(command.destination_path, command.source_path) {
        if command.maintain_directory_structure {
            let relative = path_or(stripped(source_file, command.source_path), path_of(""@));
            let parent = path_or(parent_of(relative), path_of(""@));
            joined(joined(command.destination_path, parent), file)
        } else {
            joined(command.destination_path, file)
        }
    } else {
        joined(path_or(parent_of(source_file), path_of("."@)), file)
    }
}

impl GenerateCommand {
    /// A command that keeps the structure of the directories. Its
    /// configuration holds the data source, the schema and the database
    /// given, and nothing else.
    pub fn new(
        source_path: std::path::PathBuf,
        destination_path: std::path::PathBuf,
        data_source_name: Option<String>,
        schema: Option<String>,
        database: Option<String>,
    ) -> (r: Self)
        ensures
            r@ == (GenerateCommandView {
                source_path,
                destination_path,
                data_source_name: text_view(data_source_name),
                schema: text_view(schema),
                database: text_view(database),
                config_data_source_name: text_view(data_source_name),
                config_schema: text_view(schema),
                config_database: text_view(database),
                config_exclude_files: None,
                config_exclude_tags: None,
                config_model_paths: None,
                maintain_directory_structure: true,
            }),
    {
        let config = BusterConfig {
            data_source_name: clone_text(&data_source_name),
            schema: clone_text(&schema),
            database: clone_text(&database),
            exclude_files: None,
            exclude_tags: None,
            model_paths: None,
        };
        GenerateCommand {
            source_path,
            destination_path,
            data_source_name,
            schema,
            database,
            config,
            maintain_directory_structure: true,
        }
    }

    /// Says whether the structure of the directories is kept.
    pub fn set_maintain_directory_structure(&mut self, maintain: bool)
        ensures
            final(self)@ == (GenerateCommandView {
                maintain_directory_structure: maintain,
                ..old(self)@
            }),
    {
        self.maintain_directory_structure = maintain;
    }

    /// The configuration of the command.
    pub fn config(&self) -> (r: &BusterConfig)
        ensures
            text_view(r.data_source_name) == self@.config_data_source_name,
            text_view(r.schema) == self@.config_schema,
            text_view(r.database) == self@.config_database,
            optional_texts_view(r.exclude_files) == self@.config_exclude_files,
            optional_texts_view(r.exclude_tags) == self@.config_exclude_tags,
            optional_texts_view(r.model_paths) == self@.config_model_paths,
    {
        &self.config
    }

    /// The file to which the description of the model `model_name`, found in
    /// `source_file`, is written.
    pub fn get_output_path(&self, model_name: &str, source_file: &std::path::PathBuf) -> (r:
        std::path::PathBuf)
        ensures
            r == output_path(self@, model_name@, *source_file),
    {
        let file = path_from_text(concat(model_name, ".yml").as_str());
        if !paths_equal(&self.destination_path, &self.source_path) {
            if self.maintain_directory_structure {
                let relative = match path_strip_prefix(source_file, &self.source_path) {
                    Some(p) => p,
                    None => path_from_text(""),
                };
                let parent = match path_parent(&relative) {
                    Some(p) => p,
                    None => path_from_text(""),
                };
                path_join(&path_join(&self.destination_path, &parent), &file)
            } else {
                path_join(&self.destination_path, &file)
            }
        } else {
            let parent = match path_parent(source_file) {
                Some(p) => p,
                None => path_from_text("."),
            };
            path_join(&parent, &file)
        }
    }
}

/// The names of the fields that a configuration found on disk must hold and
/// does not: the data source and the schema.
pub open spec fn missing_fields(
    data_source_name: Option<Seq<char>>,
    schema: Option<Seq<char>>,
) -> Seq<Seq<char>> {
    (if data_source_name is None {
        seq!["data_source_name"@]
    } else {
        Seq::empty()
    }) + (if schema is None {
        seq!["schema"@]
    } else {
        Seq::empty()
    })
}

/// The names of the required fields that a configuration does not hold.
pub fn missing_required_fields(config: &BusterConfig) -> (r: Vec<String>)
    ensures
        crate::agent::texts_view(r@) == missing_fields(
            text_view(config.data_source_name),
            text_view(config.schema),
        ),
{
    let mut missing: Vec<String> = Vec::new();
    if config.data_source_name.is_none() {
        missing.push(String::from_str("data_source_name"));
    }
    if config.schema.is_none() {
        missing.push(String::from_str("schema"));
    }
    assert(crate::agent::texts_view(missing@) =~= missing_fields(
        text_view(config.data_source_name),
        text_view(config.schema),
    ));
    missing
}

/// What is counted while the files of the models are gathered.
#[derive(Debug)]
pub struct GenerateProgress {
    pub total_files: usize,
    pub processed: usize,
    pub excluded_files: usize,
    pub excluded_tags: usize,
    pub current_file: String,
    pub status: String,
}

impl GenerateProgress {
    /// Counters at zero for `total_files` files.
    pub fn new(total_files: usize) -> (r: Self)
        ensures
            r.total_files == total_files,
            r.processed == 0,
            r.excluded_files == 0,
            r.excluded_tags == 0,
            r.current_file@.len() == 0,
            r.status@.len() == 0,
    {
        GenerateProgress {
            total_files,
            processed: 0,
            excluded_files: 0,
            excluded_tags: 0,
            current_file: String::new(),
            status: String::new(),
        }
    }

    /// Counts a file that a pattern excluded.
    pub fn log_excluded_file(&mut self)
        requires
            old(self).excluded_files < usize::MAX,
        ensures
            final(self).excluded_files == old(self).excluded_files + 1,
            final(self).total_files == old(self).total_files,
            final(self).processed == old(self).processed,
            final(self).excluded_tags == old(self).excluded_tags,
            final(self).current_file == old(self).current_file,
            final(self).status == old(self).status,
    {
        self.excluded_files = self.excluded_files + 1;
    }

    /// Counts a file that a tag excluded.
    pub fn log_excluded_tag(&mut self)
        requires
            old(self).excluded_tags < usize::MAX,
        ensures
            final(self).excluded_tags == old(self).excluded_tags + 1,
            final(self).total_files == old(self).total_files,
            final(self).processed == old(self).processed,
            final(self).excluded_files == old(self).excluded_files,
            final(self).current_file == old(self).current_file,
            final(self).status == old(self).status,
    {
        self.excluded_tags = self.excluded_tags + 1;
    }

    /// The number of files that were processed and not excluded, and the
    /// number of those that were excluded: `None` where more files count as
    /// excluded than as processed, or where the numbers are too large to add.
    pub fn log_summary(&self) -> (r: Option<(usize, usize)>)
        ensures
            match r {
                Some((kept, excluded)) => excluded == self.excluded_files + self.excluded_tags
                    && kept + excluded == self.processed,
                None => self.excluded_files + self.excluded_tags > self.processed,
            },
    {
        match self.excluded_files.checked_add(self.excluded_tags) {
            Some(excluded) => {
                if excluded <= self.processed {
                    Some((self.processed - excluded, excluded))
                } else {
                    None
                }
            },
            None => None,
        }
    }
}

/// The name of a model, and the file in which it was found.
#[derive(Debug)]
pub struct ModelName {
    pub name: String,
    pub source_file: std::path::PathBuf,
    pub is_from_alias: bool,
}

/// What can go wrong while the models are gathered.
#[derive(Debug)]
pub enum GenerateError {
    /// Two files give the same name to their models.
    DuplicateModelName {
        name: String,
        first_occurrence: std::path::PathBuf,
        duplicate_occurrence: std::path::PathBuf,
    },
    /// The configuration lacks a field that it must hold.
    MissingBusterYmlField { field: String },
    /// A file could not be read, or has no name to take a model name from.
    FileAccessError { path: std::path::PathBuf, error: String },
}

/// What an error says.
pub open spec fn error_text(error: GenerateError) -> Seq<char> {
    match error {
        GenerateError::DuplicateModelName { name, first_occurrence, duplicate_occurrence } => {
            "Duplicate model name '"@ + name@ + "' found. First occurrence: "@ + path_text(
                first_occurrence,
            ) + ", Duplicate: "@ + path_text(duplicate_occurrence)
        },
        GenerateError::MissingBusterYmlField { field } => {
            "Missing required field in buster.yml: "@ + field@
        },
        GenerateError::FileAccessError { path, error } => {
            "Failed to access file "@ + path_text(path) + ": "@ + error@
        },
    }
}

impl GenerateError {
    /// What the error says.
    pub fn message(&self) -> (r: String)
        ensures
            r@ == error_text(*self),
    {
        match self {
            GenerateError::DuplicateModelName { name, first_occurrence, duplicate_occurrence } => {
                let first = concat3("Duplicate model name '", name.as_str(), "' found. First occurrence: ");
                let second = concat3(
                    path_display(first_occurrence).as_str(),
                    ", Duplicate: ",
                    path_display(duplicate_occurrence).as_str(),
                );
                let all = concat(first.as_str(), second.as_str());
                assert(all@ =~= error_text(*self));
                all
            },
            GenerateError::MissingBusterYmlField { field } => {
                concat("Missing required field in buster.yml: ", field.as_str())
            },
            GenerateError::FileAccessError { path, error } => {
                let all = concat(
                    concat3("Failed to access file ", path_display(path).as_str(), ": ").as_str(),
                    error.as_str(),
                );
                assert(all@ =~= error_text(*self));
                all
            },
        }
    }
}

/// The pattern of an alias in the text of a model: the word `alias`, in
/// whatever case, an equals sign, and the alias between quotes.
pub open spec fn alias_pattern() -> Seq<char> {
    "(?i)alias\\s*=\\s*['\"]([^'\"]+)['\"]"@
}

/// The alias that a text gives to its model: what stands between the quotes
/// where the pattern of an alias first matches.
pub open spec fn alias_of(content: Seq<char>) -> Option<Seq<char>> {
    if pattern_compiles(alias_pattern()) {
        group_of_match(alias_pattern(), content, 1)
    } else {
        None
    }
}

/// The name of a file without its extension, where the file has a name and
/// the name is text.
pub open spec fn stem_of(path: std::path::PathBuf) -> Option<Seq<char>> {
    match file_stem_of(path) {
        Some(stem) => path_as_text(stem),
        None => None,
    }
}

/// The alias that the text of a model gives to the model, if it gives one.
pub fn extract_alias(content: &str) -> (r: Option<String>)
    ensures
        text_view(r) == alias_of(content@),
{
    match compile_pattern("(?i)alias\\s*=\\s*['\"]([^'\"]+)['\"]") {
        Ok(re) => regex_group(&re, content, 1),
        Err(_) => None,
    }
}

/// The name of a file without its extension, where the file has a name and
/// the name is text.
pub fn file_stem_text(path: &std::path::PathBuf) -> (r: Option<String>)
    ensures
        text_view(r) == stem_of(*path),
{
    match path_file_stem(path) {
        Some(stem) => path_to_text(&stem),
        None => None,
    }
}

/// The name of the model in a file, given the text of the file: the alias
/// that the text gives, else the name of the file without its extension.
pub open spec fn model_name_of(content: Seq<char>, path: std::path::PathBuf) -> Option<
    (Seq<char>, bool),
> {
    match alias_of(content) {
        Some(alias) => Some((alias, true)),
        None => match stem_of(path) {
            Some(stem) => Some((stem, false)),
            None => None,
        },
    }
}

/// The model of a file, given the text of the file. A file without an alias
/// and without a name to go by is an error.
pub fn process_single_sql_file(content: &str, path: &std::path::PathBuf) -> (r: Result<
    ModelName,
    GenerateError,
>)
    ensures
        match r {
            Ok(model) => model_name_of(content@, *path) == Some((model.name@, model.is_from_alias))
                && model.source_file == *path,
            Err(e) => {
                &&& model_name_of(content@, *path) is None
                &&& e matches GenerateError::FileAccessError { path: at, error }
                &&& at == *path
                &&& error@ == "Invalid filename"@
            },
        },
{
    match extract_alias(content) {
        Some(alias) => Ok(
            ModelName { name: alias, source_file: path_clone(path), is_from_alias: true },
        ),
        None => match file_stem_text(path) {
            Some(stem) => Ok(
                ModelName { name: stem, source_file: path_clone(path), is_from_alias: false },
            ),
            None => Err(
                GenerateError::FileAccessError {
                    path: path_clone(path),
                    error: String::from_str("Invalid filename"),
                },
            ),
        },
    }
}

/// A name that two files give to their models.
#[derive(Debug)]
pub struct DuplicateModelName {
    pub name: String,
    pub first_occurrence: std::path::PathBuf,
    pub duplicate_occurrence: std::path::PathBuf,
}

/// The models of a project, each name once, and the names that came twice.
#[derive(Debug)]
pub struct GenerateResult {
    pub successes: Vec<ModelName>,
    pub errors: Vec<DuplicateModelName>,
}

/// Whether `i` is the first place among `models` at which `name` stands.
pub open spec fn first_place(models: Seq<ModelName>, name: Seq<char>, i: int) -> bool {
    &&& 0 <= i < models.len()
    &&& models[i].name@ == name
    &&& forall|j: int| 0 <= j < i ==> models[j].name@ != name
}

/// Whether the model at the place `i` has a name that no model before it
/// has.
pub open spec fn is_first_of_its_name(models: Seq<ModelName>, i: int) -> bool {
    first_place(models, models[i].name@, i)
}

/// The models that are the first of their name, in order.
pub open spec fn first_of_each_name(models: Seq<ModelName>, n: int) -> Seq<ModelName>
    decreases n,
{
    if n <= 0 {
        Seq::empty()
    } else if is_first_of_its_name(models, n - 1) {
        first_of_each_name(models, n - 1).push(models[n - 1])
    } else {
        first_of_each_name(models, n - 1)
    }
}

/// The number of models among the first `n` that have the name of a model
/// before them.
pub open spec fn repeated_count(models: Seq<ModelName>, n: int) -> nat
    decreases n,
{
    if n <= 0 {
        0
    } else if is_first_of_its_name(models, n - 1) {
        repeated_count(models, n - 1)
    } else {
        repeated_count(models, n - 1) + 1
    }
}

/// Whether one of the models kept so far has the name `name`.
pub open spec fn is_kept(kept: Seq<ModelName>, name: Seq<char>) -> bool {
    exists|s: int| 0 <= s < kept.len() && (#[trigger] kept[s]).name@ == name
}

/// Whether `error` reports a name that a model among the first `n` repeats:
/// with the file of the model that had the name first, and the file of a
/// model after it that has the name too.
pub open spec fn reports_repetition(models: Seq<ModelName>, error: DuplicateModelName, n: int) -> bool {
    exists|a: int, b: int|
        #![trigger models[a], models[b]]
        first_place(models, error.name@, a) && a < b < n && models[b].name@ == error.name@
            && error.first_occurrence == models[a].source_file && error.duplicate_occurrence
            == models[b].source_file
}

/// Sorts the models found into those that are the first of their name and
/// those whose name another file had before. A repeated name is reported
/// with the file that had it first and the file that repeats it.
pub fn collect_model_names(models: Vec<ModelName>) -> (r: GenerateResult)
    ensures
        r.successes@.len() + r.errors@.len() == models@.len(),
        r.errors@.len() == repeated_count(models@, models@.len() as int),
        r.successes@.len() == first_of_each_name(models@, models@.len() as int).len(),
        forall|k: int|
            0 <= k < r.successes@.len() ==> (#[trigger] r.successes@[k]).name@
                == first_of_each_name(models@, models@.len() as int)[k].name@
                && r.successes@[k].source_file == first_of_each_name(
                models@,
                models@.len() as int,
            )[k].source_file,
        forall|k: int|
            0 <= k < r.errors@.len() ==> reports_repetition(
                models@,
                #[trigger] r.errors@[k],
                models@.len() as int,
            ),
{
    let mut successes: Vec<ModelName> = Vec::new();
    let mut errors: Vec<DuplicateModelName> = Vec::new();
    let mut places: Vec<usize> = Vec::new();
    let mut i: usize = 0;
    while i < models.len()
        invariant
            i <= models.len(),
            successes@.len() == places@.len(),
            successes@.len() + errors@.len() == i,
            errors@.len() == repeated_count(models@, i as int),
            successes@.len() == first_of_each_name(models@, i as int).len(),
            forall|k: int|
                0 <= k < places@.len() ==> (#[trigger] places@[k]) < i && first_place(
                    models@,
                    successes@[k].name@,
                    places@[k] as int,
                ) && successes@[k].source_file == models@[places@[k] as int].source_file,
            forall|j: int| 0 <= j < i ==> is_kept(successes@, (#[trigger] models@[j]).name@),
            forall|k: int|
                0 <= k < successes@.len() ==> (#[trigger] successes@[k]).name@
                    == first_of_each_name(models@, i as int)[k].name@ && successes@[k].source_file
                    == first_of_each_name(models@, i as int)[k].source_file,
            forall|k: int|
                0 <= k < errors@.len() ==> reports_repetition(
                    models@,
                    #[trigger] errors@[k],
                    i as int,
                ),
        decreases models.len() - i,
    {
        let model = &models[i];
        let mut found: Option<usize> = None;
        let mut k: usize = 0;
        while k < successes.len() && found.is_none()
            invariant
                k <= successes.len(),
                found matches Some(at) ==> at < successes@.len() && successes@[at as int].name@
                    == model.name@,
                found is None ==> forall|j: int|
                    0 <= j < k ==> (#[trigger] successes@[j]).name@ != model.name@,
            decreases successes.len() - k + (if found is None {
                1int
            } else {
                0int
            }),
        {
            if same_text(&successes[k].name, &model.name) {
                found = Some(k);
            } else {
                k = k + 1;
            }
        }
        let ghost old_successes = successes@;
        let ghost old_errors = errors@;
        match found {
            Some(at) => {
                let first = places[at];
                proof {
                    assert(first_place(models@, model.name@, first as int));
                    assert(!is_first_of_its_name(models@, i as int));
                }
                let error = DuplicateModelName {
                    name: model.name.clone(),
                    first_occurrence: path_clone(&successes[at].source_file),
                    duplicate_occurrence: path_clone(&model.source_file),
                };
                proof {
                    assert(first_place(models@, error.name@, first as int) && first < i < i + 1
                        && models@[i as int].name@ == error.name@);
                    assert(reports_repetition(models@, error, i + 1));
                }
                errors.push(error);
                proof {
                    assert forall|e: int| 0 <= e < errors@.len() implies reports_repetition(
                        models@,
                        #[trigger] errors@[e],
                        i + 1,
                    ) by {
                        if e < old_errors.len() {
                            assert(errors@[e] == old_errors[e]);
                            assert(reports_repetition(models@, old_errors[e], i as int));
                            let (a, b) = choose|a: int, b: int|
                                #![trigger models@[a], models@[b]]
                                first_place(models@, old_errors[e].name@, a) && a < b < i
                                    && models@[b].name@ == old_errors[e].name@
                                    && old_errors[e].first_occurrence == models@[a].source_file
                                    && old_errors[e].duplicate_occurrence == models@[b].source_file;
                            assert(first_place(models@, errors@[e].name@, a) && a < b < i + 1
                                && models@[b].name@ == errors@[e].name@);
                        }
                    }
                    assert(is_kept(successes@, model.name@)) by {
                        assert(successes@[at as int].name@ == model.name@);
                    }
                }
            },
            None => {
                proof {
                    assert forall|j: int| 0 <= j < i implies models@[j].name@
                        != model.name@ by {
                        assert(is_kept(successes@, models@[j].name@));
                        let s = choose|s: int|
                            0 <= s < successes@.len() && (#[trigger] successes@[s]).name@
                                == models@[j].name@;
                        assert(successes@[s].name@ != model.name@);
                    }
                    assert(is_first_of_its_name(models@, i as int));
                }
                successes.push(
                    ModelName {
                        name: model.name.clone(),
                        source_file: path_clone(&model.source_file),
                        is_from_alias: model.is_from_alias,
                    },
                );
                places.push(i);
                proof {
                    assert forall|s: int| 0 <= s < places@.len() implies (#[trigger] places@[s]) < i
                        + 1 && first_place(models@, successes@[s].name@, places@[s] as int)
                        && successes@[s].source_file == models@[places@[s] as int].source_file by {
                        if s < old_successes.len() {
                            assert(successes@[s] == old_successes[s]);
                        }
                    }
                    assert forall|j: int| 0 <= j < i + 1 implies is_kept(
                        successes@,
                        (#[trigger] models@[j]).name@,
                    ) by {
                        if j == i {
                            assert(successes@[places@.len() - 1].name@ == model.name@);
                        } else {
                            assert(is_kept(old_successes, models@[j].name@));
                            let s = choose|s: int|
                                0 <= s < old_successes.len() && (#[trigger] old_successes[s]).name@
                                    == models@[j].name@;
                            assert(successes@[s] == old_successes[s]);
                        }
                    }
                    assert forall|s: int| 0 <= s < successes@.len() implies (
                    #[trigger] successes@[s]).name@ == first_of_each_name(models@, i + 1)[s].name@
                        && successes@[s].source_file == first_of_each_name(
                        models@,
                        i + 1,
                    )[s].source_file by {
                        if s < old_successes.len() {
                            assert(successes@[s] == old_successes[s]);
                        }
                    }
                    assert forall|e: int| 0 <= e < errors@.len() implies reports_repetition(
                        models@,
                        #[trigger] errors@[e],
                        i + 1,
                    ) by {
                        assert(reports_repetition(models@, errors@[e], i as int));
                        let (a, b) = choose|a: int, b: int|
                            #![trigger models@[a], models@[b]]
                            first_place(models@, errors@[e].name@, a) && a < b < i
                                && models@[b].name@ == errors@[e].name@
                                && errors@[e].first_occurrence == models@[a].source_file
                                && errors@[e].duplicate_occurrence == models@[b].source_file;
                        assert(first_place(models@, errors@[e].name@, a) && a < b < i + 1
                            && models@[b].name@ == errors@[e].name@);
                    }
                }
            },
        }
        i = i + 1;
    }
    GenerateResult { successes, errors }
}

} // verus!
