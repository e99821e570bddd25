//! The judge request as it travels on the wire, once decoded, and the
//! result a judge hands back for it.

use vstd::prelude::*;

verus! {

/// A reference from a stage to one testcase.
#[derive(Clone, Debug, PartialEq)]
pub struct TestcaseEntry {
    pub id: i32,
    pub is_random: Option<bool>,
}

/// One testcase: its sources and whether it is shown to the submitter.
#[derive(Clone, Debug, PartialEq)]
pub struct Testcase {
    pub id: i32,
    pub sources: Vec<File>,
    pub hidden: Option<bool>,
}

/// A source file descriptor. `kind` carries the wire field `type`.
#[derive(Clone, Debug, PartialEq)]
pub struct File {
    pub path: String,
    pub locked: Option<bool>,
    pub hidden: Option<bool>,
    pub kind: Option<String>,
}

/// A program to build: the submission itself, a generator or a comparator.
#[derive(Clone, Debug, PartialEq)]
pub struct Program {
    pub language: String,
    pub compile_args: Vec<String>,
    pub sources: Vec<File>,
    pub git_repo_name: Option<String>,
    pub entry_point: Option<String>,
}

/// The condition under which a stage runs.
#[derive(Clone, Debug, PartialEq)]
pub struct Require {
    pub on: String,
    pub cond: Option<String>,
}

/// Script hooks of a stage.
#[derive(Clone, Debug, PartialEq)]
pub struct Script {
    pub check: Option<String>,
    pub run: Option<String>,
    pub compare: Option<String>,
}

/// Resource limits of a stage.
#[derive(Clone, Debug, PartialEq)]
pub struct Limits {
    pub time: Option<i64>,
    pub memory: Option<i64>,
    pub file: Option<i64>,
    pub proc: Option<i64>,
}

/// One phase of a judge pipeline; `replicas` fan it out into sub-stages.
#[derive(Debug, PartialEq)]
pub struct Stage {
    pub name: String,
    pub preset: Option<String>,
    pub require: Option<Require>,
    pub script: Option<Script>,
    pub limits: Option<Limits>,
    pub testcase: Option<TestcaseEntry>,
    pub grade: i32,
    pub replicas: Option<Vec<Stage>>,
}

/// A decoded judge request (the job descriptor). `kind` carries the wire
/// field `type`.
#[derive(Debug, PartialEq)]
pub struct JudgeConfig {
    pub id: i32,
    pub version: String,
    pub kind: String,
    pub stages: Vec<Stage>,
    pub program: Program,
    pub random_generator: Option<Program>,
    pub custom_comparator: Option<Program>,
    pub testcases: Vec<Testcase>,
}

/// What a judge reports for a request.
#[derive(Clone, Debug, PartialEq)]
pub struct JudgeResult {
    pub id: i32,
    pub status: String,
}

} // verus!
