//! Installing and restoring the wallpaper: where the files live, in which order
//! they are touched, and what a failed step means.
//!
//! The library decides; the caller performs. A plan is a list of steps, each of
//! them one operation on the file system or one call of the operating system,
//! to be performed in order until one fails. What a step does to the files is
//! stated here as a model, `perform`, over which the properties of the plans
//! are proved.

use vstd::prelude::*;
use vstd::string::*;
use crate::picture::ComposeError;
use crate::text::{matches_at, occurs_at};
use crate::watermark::WatermarkRequest;

verus! {

/// One of the three files that the tool touches.
#[derive(Clone, Copy, Debug, PartialEq, Eq, Structural)]
pub enum Slot {
    /// The picture that the operating system shows now; only ever read.
    Source,
    /// The copy of the source made before the last run.
    Backup,
    /// The watermarked picture.
    Output,
}

/// One operation of a plan.
#[derive(Clone, Copy, Debug, PartialEq, Eq, Structural)]
pub enum Step {
    /// Create the output directory unless it exists.
    EnsureOutputDir,
    /// Check that the source file exists.
    RequireSource,
    /// Copy the source file over the backup file.
    BackUpSource,
    /// Read the source file.
    LoadSource,
    /// Compose the watermarked picture from what was read.
    Render,
    /// Write the composed picture to the output file.
    StoreOutput,
    /// Ask the operating system to show the file of this slot as the desktop
    /// background, and to keep the choice.
    Adopt(Slot),
}

/// What a plan amounts to.
#[derive(Clone, Copy, Debug, PartialEq, Eq, Structural)]
pub enum Verdict {
    /// The steps are to be performed.
    Proceed,
    /// The request shows nothing; there is nothing to perform.
    NothingRequested,
    /// There is no backup; there is nothing to perform.
    NothingToRestore,
}

/// The steps to perform, in order, and why there are none if there are none.
#[derive(Clone, Debug, PartialEq, Eq)]
pub struct Plan {
    pub verdict: Verdict,
    pub steps: Vec<Step>,
}

/// Why a run ended early.
#[derive(Clone, Debug, PartialEq, Eq)]
pub enum Failure {
    /// There is no picture to watermark: the desktop shows a plain colour.
    SourceMissing,
    /// The source file could not be read. Holds the system's message.
    SourceUnreadable(String),
    /// The picture could not be composed.
    Compose(ComposeError),
    /// The operating system refused the new background. Holds its message.
    OsCall(String),
    /// Another file operation failed. Holds the system's message.
    Io(String),
}

/// The paths of the files, as text.
#[derive(Clone, Debug, PartialEq, Eq)]
pub struct FileLayout {
    pub source: String,
    pub output_dir: String,
    pub output: String,
    pub backup: String,
}

/// The files as far as the plans are concerned. `None` is a file that does not
/// exist. `adopted` lists the slots that the operating system was asked to
/// show, in the order of the calls.
pub ghost struct Files {
    pub source: Option<Seq<u8>>,
    pub backup: Option<Seq<u8>>,
    pub output: Option<Seq<u8>>,
    pub output_dir: bool,
    pub adopted: Seq<Slot>,
}

/// The marker that a canonical path starts with and that the operating system
/// does not accept in the path of a wallpaper.
pub open spec fn verbatim_marker() -> Seq<char> {
    seq!['\\', '\\', '?', '\\']
}

/// `path` without any verbatim markers at its start.
pub open spec fn without_verbatim(path: Seq<char>) -> Seq<char>
    decreases path.len(),
{
    if verbatim_marker().is_prefix_of(path) {
        without_verbatim(path.skip(4))
    } else {
        path
    }
}

/// The path of `name` under the directory `base`: a backslash stands between
/// them unless `base` is empty or ends with a separator.
pub open spec fn joined(base: Seq<char>, name: Seq<char>) -> Seq<char> {
    if base.len() == 0 {
        name
    } else if base.last() == '\\' || base.last() == '/' {
        base + name
    } else {
        base + seq!['\\'] + name
    }
}

/// Where the operating system keeps the picture that it shows, below the
/// profile directory.
pub open spec fn theme_dir_name() -> Seq<char> {
    "AppData\\Roaming\\Microsoft\\Windows\\Themes"@
}

/// Name of the file in which the operating system keeps the picture.
pub open spec fn source_file_name() -> Seq<char> {
    "TranscodedWallpaper"@
}

/// Name of the output directory below the profile directory.
pub open spec fn output_dir_name() -> Seq<char> {
    "WallpaperTool"@
}

/// Name of the output file.
pub open spec fn output_file_name() -> Seq<char> {
    "Wallpaper_Watermark.jpg"@
}

/// Name of the backup file.
pub open spec fn backup_file_name() -> Seq<char> {
    "Wallpaper_Backup.jpg"@
}

/// The steps of applying a watermark, in order. The source is required before
/// anything is overwritten, and backed up before the output is written.
pub open spec fn apply_steps() -> Seq<Step> {
    seq![
        Step::EnsureOutputDir,
        Step::RequireSource,
        Step::BackUpSource,
        Step::LoadSource,
        Step::Render,
        Step::StoreOutput,
        Step::Adopt(Slot::Output),
    ]
}

/// The steps of restoring the backup: the one call that shows it.
pub open spec fn restore_steps() -> Seq<Step> {
    seq![Step::Adopt(Slot::Backup)]
}

impl Files {
    /// What the file of a slot holds.
    pub open spec fn content(self, slot: Slot) -> Option<Seq<u8>> {
        match slot {
            Slot::Source => self.source,
            Slot::Backup => self.backup,
            Slot::Output => self.output,
        }
    }
}

/// A step can be performed on these files.
pub open spec fn succeeds(step: Step, files: Files) -> bool {
    match step {
        Step::EnsureOutputDir => true,
        Step::RequireSource => files.source is Some,
        Step::BackUpSource => files.source is Some && files.output_dir,
        Step::LoadSource => files.source is Some,
        Step::Render => true,
        Step::StoreOutput => files.output_dir,
        Step::Adopt(slot) => files.content(slot) is Some,
    }
}

/// The files after a step that succeeded. `rendered` is what the run composes.
/// Once the operating system shows a file, its own copy of the picture holds
/// what that file holds.
pub open spec fn perform(step: Step, files: Files, rendered: Seq<u8>) -> Files {
    match step {
        Step::EnsureOutputDir => Files { output_dir: true, ..files },
        Step::RequireSource => files,
        Step::BackUpSource => Files { backup: files.source, ..files },
        Step::LoadSource => files,
        Step::Render => files,
        Step::StoreOutput => Files { output: Some(rendered), ..files },
        Step::Adopt(slot) => Files {
            source: files.content(slot),
            adopted: files.adopted.push(slot),
            ..files
        },
    }
}

/// The files after the steps were performed in order, up to the first that
/// fails.
pub open spec fn run(steps: Seq<Step>, files: Files, rendered: Seq<u8>) -> Files
    decreases steps.len(),
{
    if steps.len() == 0 || !succeeds(steps[0], files) {
        files
    } else {
        run(steps.skip(1), perform(steps[0], files, rendered), rendered)
    }
}

/// The text that a failure shows in the status line.
pub open spec fn failure_text(failure: Failure) -> Seq<char> {
    match failure {
        Failure::SourceMissing => "未找到系统壁纸 (TranscodedWallpaper)。请确保使用图片壁纸。"@,
        Failure::SourceUnreadable(detail) => "无法读取壁纸："@ + detail@
            + "。若报错“被占用”，请稍后重试。"@,
        Failure::Compose(ComposeError::Decode(detail)) => detail@,
        Failure::Compose(ComposeError::EmptySource) => "原壁纸尺寸无效"@,
        Failure::Compose(ComposeError::Encode(detail)) => detail@,
        Failure::OsCall(detail) => detail@,
        Failure::Io(detail) => detail@,
    }
}

/// What the failure of a step of a plan means. `detail` is the message that
/// came with it. A step that composes reports its own error and is not asked
/// about here.
pub open spec fn failure_of(step: Step, detail: String) -> Failure {
    match step {
        Step::RequireSource => Failure::SourceMissing,
        Step::LoadSource => Failure::SourceUnreadable(detail),
        Step::Adopt(_) => Failure::OsCall(detail),
        _ => Failure::Io(detail),
    }
}

impl Failure {
    /// The text that the failure shows in the status line. What the operating
    /// system or the codec said is shown as it was said.
    pub fn message(&self) -> (text: String)
        ensures
            text@ == failure_text(*self),
    {
        match self {
            Failure::SourceMissing => String::from_str(
                "未找到系统壁纸 (TranscodedWallpaper)。请确保使用图片壁纸。",
            ),
            Failure::SourceUnreadable(detail) => {
                let mut text = String::from_str("无法读取壁纸：");
                text.append(detail.as_str());
                text.append("。若报错“被占用”，请稍后重试。");
                text
            },
            Failure::Compose(ComposeError::Decode(detail)) => detail.clone(),
            Failure::Compose(ComposeError::EmptySource) => String::from_str("原壁纸尺寸无效"),
            Failure::Compose(ComposeError::Encode(detail)) => detail.clone(),
            Failure::OsCall(detail) => detail.clone(),
            Failure::Io(detail) => detail.clone(),
        }
    }
}

/// What the failure of `step` means, given the message that came with it.
pub fn classify_failure(step: Step, detail: String) -> (failure: Failure)
    ensures
        failure == failure_of(step, detail),
{
    match step {
        Step::RequireSource => Failure::SourceMissing,
        Step::LoadSource => Failure::SourceUnreadable(detail),
        Step::Adopt(_) => Failure::OsCall(detail),
        _ => Failure::Io(detail),
    }
}

/// The path that the operating system accepts for a wallpaper: the canonical
/// path without the verbatim markers at its start.
pub fn strip_verbatim_prefix(path: &str) -> (plain: String)
    ensures
        plain@ == without_verbatim(path@),
{
    let n = path.unicode_len();
    let mut start: usize = 0;
    proof {
        reveal_strlit("\\\\?\\");
        assert("\\\\?\\"@ =~= verbatim_marker());
        assert(path@.skip(0) =~= path@);
    }
    while start < n && matches_at(path, "\\\\?\\", start)
        invariant
            start <= n,
            n == path@.len(),
            "\\\\?\\"@ == verbatim_marker(),
            without_verbatim(path@) == without_verbatim(path@.skip(start as int)),
        decreases n - start,
    {
        proof {
            let rest = path@.skip(start as int);
            assert(rest.subrange(0, 4) =~= path@.subrange(start as int, start + 4));
            assert(rest.skip(4) =~= path@.skip(start + 4));
        }
        start = start + 4;
    }
    proof {
        let rest = path@.skip(start as int);
        if start < n {
            if verbatim_marker().is_prefix_of(rest) {
                assert(rest.subrange(0, 4) =~= path@.subrange(start as int, start + 4));
                assert(occurs_at(path@, verbatim_marker(), start as int));
            }
        }
        assert(rest =~= path@.subrange(start as int, n as int));
    }
    String::from_str(path.substring_char(start, n))
}

/// The path of `name` under the directory `base`.
pub fn child_path(base: &str, name: &str) -> (path: String)
    ensures
        path@ == joined(base@, name@),
{
    let n = base.unicode_len();
    let mut path = String::from_str(base);
    if n > 0 {
        let last = base.get_char(n - 1);
        if last != '\\' && last != '/' {
            proof {
                reveal_strlit("\\");
                assert("\\"@ =~= seq!['\\']);
            }
            path.append("\\");
        }
    }
    path.append(name);
    proof {
        if n == 0 {
            assert(path@ =~= name@);
        }
    }
    path
}

/// Where the files live for the profile directory `profile`.
pub fn file_layout(profile: &str) -> (layout: FileLayout)
    ensures
        layout.source@ == joined(joined(profile@, theme_dir_name()), source_file_name()),
        layout.output_dir@ == joined(profile@, output_dir_name()),
        layout.output@ == joined(layout.output_dir@, output_file_name()),
        layout.backup@ == joined(layout.output_dir@, backup_file_name()),
{
    let themes = child_path(profile, "AppData\\Roaming\\Microsoft\\Windows\\Themes");
    let source = child_path(themes.as_str(), "TranscodedWallpaper");
    let output_dir = child_path(profile, "WallpaperTool");
    let output = child_path(output_dir.as_str(), "Wallpaper_Watermark.jpg");
    let backup = child_path(output_dir.as_str(), "Wallpaper_Backup.jpg");
    FileLayout { source, output_dir, output, backup }
}

impl FileLayout {
    /// The path of the file of a slot.
    pub fn path_of(&self, slot: Slot) -> (path: &String)
        ensures
            path@ == match slot {
                Slot::Source => self.source@,
                Slot::Backup => self.backup@,
                Slot::Output => self.output@,
            },
    {
        match slot {
            Slot::Source => &self.source,
            Slot::Backup => &self.backup,
            Slot::Output => &self.output,
        }
    }
}

/// Plans the run that applies a watermark. A request that shows nothing gets
/// no step at all.
pub fn plan_apply(request: &WatermarkRequest) -> (plan: Plan)
    ensures
        request.has_content() ==> plan.verdict == Verdict::Proceed && plan.steps@ == apply_steps(),
        !request.has_content() ==> plan.verdict == Verdict::NothingRequested && plan.steps@.len() == 0,
{
    let mut steps: Vec<Step> = Vec::new();
    if !request.is_acceptable() {
        return Plan { verdict: Verdict::NothingRequested, steps };
    }
    steps.push(Step::EnsureOutputDir);
    steps.push(Step::RequireSource);
    steps.push(Step::BackUpSource);
    steps.push(Step::LoadSource);
    steps.push(Step::Render);
    steps.push(Step::StoreOutput);
    steps.push(Step::Adopt(Slot::Output));
    proof {
        assert(steps@ =~= apply_steps());
    }
    Plan { verdict: Verdict::Proceed, steps }
}

/// Plans the run that restores the backup. Without a backup there is no step;
/// with one, the operating system is asked once to show it, and nothing is
/// composed.
pub fn plan_restore(backup_exists: bool) -> (plan: Plan)
    ensures
        backup_exists ==> plan.verdict == Verdict::Proceed && plan.steps@ == restore_steps(),
        !backup_exists ==> plan.verdict == Verdict::NothingToRestore && plan.steps@.len() == 0,
{
    let mut steps: Vec<Step> = Vec::new();
    if !backup_exists {
        return Plan { verdict: Verdict::NothingToRestore, steps };
    }
    steps.push(Step::Adopt(Slot::Backup));
    proof {
        assert(steps@ =~= restore_steps());
    }
    Plan { verdict: Verdict::Proceed, steps }
}

/// A plan without steps leaves the files as they are and calls nothing.
pub proof fn lemma_empty_plan_touches_nothing(files: Files, rendered: Seq<u8>)
    ensures
        run(Seq::<Step>::empty(), files, rendered) == files,
{
}

/// Unfolds `run` over the steps of applying.
proof fn lemma_run_apply(files: Files, rendered: Seq<u8>)
    requires
        files.source is Some,
    ensures
        run(apply_steps(), files, rendered) == (Files {
            source: Some(rendered),
            backup: files.source,
            output: Some(rendered),
            output_dir: true,
            adopted: files.adopted.push(Slot::Output),
        }),
{
    let s0 = apply_steps();
    let f1 = perform(s0[0], files, rendered);
    let s1 = s0.skip(1);
    let f2 = perform(s1[0], f1, rendered);
    let s2 = s1.skip(1);
    let f3 = perform(s2[0], f2, rendered);
    let s3 = s2.skip(1);
    let f4 = perform(s3[0], f3, rendered);
    let s4 = s3.skip(1);
    let f5 = perform(s4[0], f4, rendered);
    let s5 = s4.skip(1);
    let f6 = perform(s5[0], f5, rendered);
    let s6 = s5.skip(1);
    let f7 = perform(s6[0], f6, rendered);
    let s7 = s6.skip(1);
    assert(s7.len() == 0);
    assert(run(s7, f7, rendered) == f7);
    assert(run(s6, f6, rendered) == f7);
    assert(run(s5, f5, rendered) == f7);
    assert(run(s4, f4, rendered) == f7);
    assert(run(s3, f3, rendered) == f7);
    assert(run(s2, f2, rendered) == f7);
    assert(run(s1, f1, rendered) == f7);
    assert(run(s0, files, rendered) == f7);
}

/// Applying where there is no source picture writes no file and calls nothing:
/// the run ends before anything is overwritten.
pub proof fn lemma_apply_without_source(files: Files, rendered: Seq<u8>)
    requires
        files.source is None,
    ensures
        run(apply_steps(), files, rendered).backup == files.backup,
        run(apply_steps(), files, rendered).output == files.output,
        run(apply_steps(), files, rendered).adopted == files.adopted,
{
    let s0 = apply_steps();
    let f1 = perform(s0[0], files, rendered);
    let s1 = s0.skip(1);
    assert(s1[0] == Step::RequireSource);
    assert(run(s1, f1, rendered) == f1);
    assert(run(s0, files, rendered) == f1);
}

/// Restoring calls the operating system exactly once, with the backup, and
/// leaves the backup and the output as they are.
pub proof fn lemma_restore_adopts_backup(files: Files, rendered: Seq<u8>)
    requires
        files.backup is Some,
    ensures
        run(restore_steps(), files, rendered).adopted == files.adopted.push(Slot::Backup),
        run(restore_steps(), files, rendered).source == files.backup,
        run(restore_steps(), files, rendered).backup == files.backup,
        run(restore_steps(), files, rendered).output == files.output,
{
    let s0 = restore_steps();
    let f1 = perform(s0[0], files, rendered);
    let s1 = s0.skip(1);
    assert(s1.len() == 0);
    assert(run(s1, f1, rendered) == f1);
    assert(run(s0, files, rendered) == f1);
}

/// After a run the backup holds the picture that was shown just before it.
/// So after two runs in a row the backup holds the output of the first, not
/// the picture from before the first.
pub proof fn lemma_backup_is_previous_picture(files: Files, first: Seq<u8>, second: Seq<u8>)
    requires
        files.source is Some,
    ensures
        run(apply_steps(), files, first).backup == files.source,
        run(apply_steps(), files, first).output == Some(first),
        run(apply_steps(), run(apply_steps(), files, first), second).backup == Some(first),
        run(apply_steps(), run(apply_steps(), files, first), second).output == Some(second),
{
    lemma_run_apply(files, first);
    lemma_run_apply(run(apply_steps(), files, first), second);
}

} // verus!
