//! The package planner and operation executor.
//!
//! A package is analyzed against a snapshot of the filesystem: the
//! walker (outside this library) records every entry of the package
//! tree together with what stands at the corresponding target path,
//! and the planner classifies each file into a `Create`, a `Skip`, or a
//! conflict.  The executor turns a plan into explicit actions and, on a
//! dry run, into purely descriptive ones.

use vstd::prelude::*;
use vstd::string::StringExecFns;
use crate::ignore::{file_name, file_name_of, is_ignored, is_ignored_spec};
use crate::strutil::{concat_str, copy_str, match_at, split_chars, split_on, str_eq, trim,
    trim_chars};

verus! {

/// A named package directory inside the stow directory.
pub struct StowPackage {
    pub name: String,
    pub path: String,
}

/// What one planned operation does.
#[derive(Debug)]
pub enum OpType {
    Create,
    Remove,
    Skip(String),
}

/// One planned symlink operation.
pub struct SymlinkOp {
    pub source: String,
    pub target: String,
    pub op_type: OpType,
}

/// The planner's and executor's errors.
#[derive(Debug)]
pub enum StowError {
    Io(String),
    InvalidPackage(String),
    ConflictDetected(String),
    InvalidPath(String),
}

/// What the filesystem shows at a path: nothing, a symlink with its
/// destination, or plain content.
pub enum TargetState {
    Absent,
    SymlinkTo(String),
    PresentFile,
    PresentDir,
}

/// One entry of a package-tree walk: the path relative to the package
/// root, whether it is a directory, and what stands at the target.
pub struct ScanEntry {
    pub rel_path: String,
    pub is_dir: bool,
    pub target: TargetState,
}

/// A snapshot of one package's tree.
pub struct PackageTree {
    pub root: String,
    pub root_exists: bool,
    pub root_is_dir: bool,
    pub ignore_file: Option<String>,
    pub entries: Vec<ScanEntry>,
}

// ---- mathematical views -------------------------------------------------

pub enum OpTypeV {
    Create,
    Remove,
    Skip(Seq<char>),
}

pub struct OpV {
    pub source: Seq<char>,
    pub target: Seq<char>,
    pub op: OpTypeV,
}

pub enum StowErrKind {
    Io,
    InvalidPackage,
    ConflictDetected,
    InvalidPath,
}

pub enum TargetStateV {
    Absent,
    SymlinkTo(Seq<char>),
    PresentFile,
    PresentDir,
}

pub struct EntryV {
    pub rel: Seq<char>,
    pub is_dir: bool,
    pub target: TargetStateV,
}

pub struct TreeV {
    pub root: Seq<char>,
    pub root_exists: bool,
    pub root_is_dir: bool,
    pub ignore_file: Option<Seq<char>>,
    pub entries: Seq<EntryV>,
}

impl View for OpType {
    type V = OpTypeV;

    open spec fn view(&self) -> OpTypeV {
        match self {
            OpType::Create => OpTypeV::Create,
            OpType::Remove => OpTypeV::Remove,
            OpType::Skip(reason) => OpTypeV::Skip(reason@),
        }
    }
}

impl View for SymlinkOp {
    type V = OpV;

    open spec fn view(&self) -> OpV {
        OpV { source: self.source@, target: self.target@, op: self.op_type@ }
    }
}

impl View for StowError {
    type V = StowErrKind;

    open spec fn view(&self) -> StowErrKind {
        match self {
            StowError::Io(_) => StowErrKind::Io,
            StowError::InvalidPackage(_) => StowErrKind::InvalidPackage,
            StowError::ConflictDetected(_) => StowErrKind::ConflictDetected,
            StowError::InvalidPath(_) => StowErrKind::InvalidPath,
        }
    }
}

impl View for TargetState {
    type V = TargetStateV;

    open spec fn view(&self) -> TargetStateV {
        match self {
            TargetState::Absent => TargetStateV::Absent,
            TargetState::SymlinkTo(dest) => TargetStateV::SymlinkTo(dest@),
            TargetState::PresentFile => TargetStateV::PresentFile,
            TargetState::PresentDir => TargetStateV::PresentDir,
        }
    }
}

impl View for ScanEntry {
    type V = EntryV;

    open spec fn view(&self) -> EntryV {
        EntryV { rel: self.rel_path@, is_dir: self.is_dir, target: self.target@ }
    }
}

impl View for PackageTree {
    type V = TreeV;

    open spec fn view(&self) -> TreeV {
        TreeV {
            root: self.root@,
            root_exists: self.root_exists,
            root_is_dir: self.root_is_dir,
            ignore_file: match &self.ignore_file {
                Some(c) => Some(c@),
                None => None,
            },
            entries: self.entries@.map_values(|e: ScanEntry| e@),
        }
    }
}

impl StowError {
    /// A human-readable line for this error.
    pub fn message(&self) -> (r: String)
        ensures
            match self {
                StowError::Io(s) => r@ == "IO error: "@ + s@,
                StowError::InvalidPackage(s) => r@ == "Invalid package: "@ + s@,
                StowError::ConflictDetected(s) => r@ == "Conflict detected: "@ + s@,
                StowError::InvalidPath(s) => r@ == "Invalid path: "@ + s@,
            },
    {
        match self {
            StowError::Io(s) => concat_str(String::from_str("IO error: "), s.as_str()),
            StowError::InvalidPackage(s) => concat_str(
                String::from_str("Invalid package: "),
                s.as_str(),
            ),
            StowError::ConflictDetected(s) => concat_str(
                String::from_str("Conflict detected: "),
                s.as_str(),
            ),
            StowError::InvalidPath(s) => concat_str(
                String::from_str("Invalid path: "),
                s.as_str(),
            ),
        }
    }
}

// ---- paths and rules ----------------------------------------------------

/// `a` and `b` joined with a path separator.
pub open spec fn join_chars(a: Seq<char>, b: Seq<char>) -> Seq<char> {
    a + "/"@ + b
}

/// Join two path pieces with a `/`.
pub fn join_path(a: &str, b: &str) -> (r: String)
    ensures
        r@ == join_chars(a@, b@),
{
    concat_str(concat_str(copy_str(a), "/"), b)
}

/// The name of the per-package ignore-rule file.
pub open spec fn ignore_file_name() -> Seq<char> {
    ".stow-local-ignore"@
}

/// The rules read from the ignore file's lines: each line trimmed,
/// blank lines and `#`-prefixed lines dropped.
pub open spec fn rules_of_lines(lines: Seq<Seq<char>>) -> Seq<Seq<char>>
    decreases lines.len(),
{
    if lines.len() == 0 {
        Seq::empty()
    } else {
        let t = trim_chars(lines[0]);
        let rest = rules_of_lines(lines.drop_first());
        if t.len() > 0 && t[0] != '#' {
            seq![t] + rest
        } else {
            rest
        }
    }
}

/// The ignore rules of a package: empty when the ignore file is absent.
pub open spec fn ignore_rules_spec(content: Option<Seq<char>>) -> Seq<Seq<char>> {
    match content {
        None => Seq::empty(),
        Some(c) => rules_of_lines(split_chars(c, '\n')),
    }
}

/// Read the ignore rules out of the ignore file's contents.  An absent
/// file yields the empty rule set, never an error.
pub fn parse_ignore_rules(content: &Option<String>) -> (rules: Vec<String>)
    ensures
        rules@.map_values(|p: String| p@) == ignore_rules_spec(
            match content {
                Some(c) => Some(c@),
                None => None,
            },
        ),
{
    let mut rules: Vec<String> = Vec::new();
    match content {
        None => {
            assert(rules@.map_values(|p: String| p@) =~= Seq::<Seq<char>>::empty());
            rules
        }
        Some(c) => {
            let lines = split_on(c.as_str(), '\n');
            let ghost slines = lines@.map_values(|p: String| p@);
            let mut i: usize = 0;
            proof {
                assert(slines.skip(0) =~= slines);
            }
            while i < lines.len()
                invariant
                    i <= lines.len(),
                    slines == lines@.map_values(|p: String| p@),
                    rules_of_lines(slines) == rules@.map_values(|p: String| p@)
                        + rules_of_lines(slines.skip(i as int)),
                decreases lines.len() - i,
            {
                let ghost before = rules@;
                let t = trim(lines[i].as_str());
                proof {
                    assert(slines.skip(i as int)[0] == slines[i as int]);
                    assert(slines.skip(i as int).drop_first() =~= slines.skip(i + 1));
                }
                if t.as_str().unicode_len() > 0 && t.as_str().get_char(0) != '#' {
                    rules.push(t);
                    proof {
                        assert(rules@.map_values(|p: String| p@) =~= before.map_values(
                            |p: String| p@,
                        ).push(trim_chars(slines[i as int])));
                        assert(before.map_values(|p: String| p@).push(
                            trim_chars(slines[i as int]),
                        ) =~= before.map_values(|p: String| p@) + seq![
                            trim_chars(slines[i as int]),
                        ]);
                        assert(rules_of_lines(slines) =~= rules@.map_values(|p: String| p@)
                            + rules_of_lines(slines.skip(i + 1)));
                    }
                }
                i += 1;
            }
            proof {
                assert(slines.skip(lines@.len() as int) =~= Seq::<Seq<char>>::empty());
                assert(rules_of_lines(slines) =~= rules@.map_values(|p: String| p@));
            }
            rules
        }
    }
}

// ---- classifying one target ---------------------------------------------

/// The reason attached to a `Skip` of an already-correct link.
pub open spec fn already_linked_reason() -> Seq<char> {
    "Already linked correctly"@
}

/// The reason attached to a `Skip` of an ignored entry.
pub open spec fn ignored_reason() -> Seq<char> {
    "Ignored by .stow-local-ignore"@
}

/// How a file whose link source is `source` is classified against what
/// stands at its target path.
pub open spec fn classify_target(source: Seq<char>, st: TargetStateV) -> Result<
    OpTypeV,
    StowErrKind,
> {
    match st {
        TargetStateV::Absent => Ok(OpTypeV::Create),
        TargetStateV::SymlinkTo(dest) => if dest == source {
            Ok(OpTypeV::Skip(already_linked_reason()))
        } else {
            Err(StowErrKind::ConflictDetected)
        },
        TargetStateV::PresentFile => Err(StowErrKind::ConflictDetected),
        TargetStateV::PresentDir => Err(StowErrKind::ConflictDetected),
    }
}

/// Classify one file against its target: an absent target calls for a
/// link, a link to `source` is already correct, and anything else is a
/// conflict, never a silent overwrite.
pub fn determine_operation(source: &str, target: &str, state: &TargetState) -> (r: Result<
    OpType,
    StowError,
>)
    ensures
        match r {
            Ok(op) => classify_target(source@, state@) == Ok::<OpTypeV, StowErrKind>(op@),
            Err(e) => classify_target(source@, state@) == Err::<OpTypeV, StowErrKind>(e@),
        },
{
    match state {
        TargetState::Absent => Ok(OpType::Create),
        TargetState::SymlinkTo(dest) => {
            if str_eq(dest.as_str(), source) {
                Ok(OpType::Skip(String::from_str("Already linked correctly")))
            } else {
                let msg = concat_str(
                    concat_str(
                        concat_str(
                            concat_str(String::from_str("Target "), target),
                            " is a symlink to ",
                        ),
                        dest.as_str(),
                    ),
                    " but should point elsewhere",
                );
                Err(StowError::ConflictDetected(msg))
            }
        }
        TargetState::PresentFile => Err(
            StowError::ConflictDetected(
                concat_str(
                    concat_str(String::from_str("Target "), target),
                    " exists and is not a symlink",
                ),
            ),
        ),
        TargetState::PresentDir => Err(
            StowError::ConflictDetected(
                concat_str(
                    concat_str(String::from_str("Target "), target),
                    " exists and is not a symlink",
                ),
            ),
        ),
    }
}

// ---- finding packages ---------------------------------------------------

/// One entry of a directory listing.
pub struct DirEntryInfo {
    pub name: String,
    pub is_dir: bool,
}

/// A snapshot of the stow directory: its path, whether it exists and is
/// a directory, and its immediate entries.
pub struct DirListing {
    pub path: String,
    pub exists: bool,
    pub is_dir: bool,
    pub entries: Vec<DirEntryInfo>,
}

pub struct DirEntryV {
    pub name: Seq<char>,
    pub is_dir: bool,
}

impl View for DirEntryInfo {
    type V = DirEntryV;

    open spec fn view(&self) -> DirEntryV {
        DirEntryV { name: self.name@, is_dir: self.is_dir }
    }
}

pub struct PkgV {
    pub name: Seq<char>,
    pub path: Seq<char>,
}

impl View for StowPackage {
    type V = PkgV;

    open spec fn view(&self) -> PkgV {
        PkgV { name: self.name@, path: self.path@ }
    }
}

/// The packages of a directory listing: its immediate subdirectories
/// whose names do not start with a dot.
pub open spec fn packages_of(root: Seq<char>, entries: Seq<DirEntryV>) -> Seq<PkgV>
    decreases entries.len(),
{
    if entries.len() == 0 {
        Seq::empty()
    } else {
        let e = entries[0];
        let rest = packages_of(root, entries.drop_first());
        if e.is_dir && !(e.name.len() > 0 && e.name[0] == '.') {
            seq![PkgV { name: e.name, path: join_chars(root, e.name) }] + rest
        } else {
            rest
        }
    }
}

/// Discover the packages of the stow directory: every immediate,
/// non-hidden subdirectory.  A missing or non-directory stow path is an
/// `InvalidPath` error.
pub fn find_packages(dir: &DirListing) -> (r: Result<Vec<StowPackage>, StowError>)
    ensures
        !dir.exists ==> (r matches Err(e) && e@ == StowErrKind::InvalidPath),
        dir.exists && !dir.is_dir ==> (r matches Err(e) && e@ == StowErrKind::InvalidPath),
        dir.exists && dir.is_dir ==> (r matches Ok(pkgs) && pkgs@.map_values(
            |p: StowPackage| p@,
        ) == packages_of(dir.path@, dir.entries@.map_values(|e: DirEntryInfo| e@))),
{
    if !dir.exists {
        return Err(
            StowError::InvalidPath(
                concat_str(
                    String::from_str("Stow directory does not exist: "),
                    dir.path.as_str(),
                ),
            ),
        );
    }
    if !dir.is_dir {
        return Err(
            StowError::InvalidPath(
                concat_str(
                    String::from_str("Stow path is not a directory: "),
                    dir.path.as_str(),
                ),
            ),
        );
    }
    let ghost sentries = dir.entries@.map_values(|e: DirEntryInfo| e@);
    let mut pkgs: Vec<StowPackage> = Vec::new();
    let mut i: usize = 0;
    proof {
        assert(sentries.skip(0) =~= sentries);
    }
    while i < dir.entries.len()
        invariant
            i <= dir.entries.len(),
            sentries == dir.entries@.map_values(|e: DirEntryInfo| e@),
            packages_of(dir.path@, sentries) == pkgs@.map_values(|p: StowPackage| p@)
                + packages_of(dir.path@, sentries.skip(i as int)),
        decreases dir.entries.len() - i,
    {
        let e = &dir.entries[i];
        proof {
            assert(sentries.skip(i as int)[0] == sentries[i as int]);
            assert(sentries.skip(i as int).drop_first() =~= sentries.skip(i + 1));
        }
        let hidden = e.name.as_str().unicode_len() > 0 && e.name.as_str().get_char(0) == '.';
        if e.is_dir && !hidden {
            let ghost before = pkgs@;
            let pkg = StowPackage {
                name: copy_str(e.name.as_str()),
                path: join_path(dir.path.as_str(), e.name.as_str()),
            };
            pkgs.push(pkg);
            proof {
                assert(pkgs@.map_values(|p: StowPackage| p@) =~= before.map_values(
                    |p: StowPackage| p@,
                ) + seq![
                    PkgV {
                        name: sentries[i as int].name,
                        path: join_chars(dir.path@, sentries[i as int].name),
                    },
                ]);
                assert(packages_of(dir.path@, sentries) =~= pkgs@.map_values(
                    |p: StowPackage| p@,
                ) + packages_of(dir.path@, sentries.skip(i + 1)));
            }
        }
        i += 1;
    }
    proof {
        assert(sentries.skip(dir.entries@.len() as int) =~= Seq::<DirEntryV>::empty());
        assert(packages_of(dir.path@, sentries) =~= pkgs@.map_values(|p: StowPackage| p@));
    }
    Ok(pkgs)
}

// ---- the planner --------------------------------------------------------

/// `a` names a directory strictly above `b`.
pub open spec fn strict_dir_prefix(a: Seq<char>, b: Seq<char>) -> bool {
    &&& a.len() < b.len()
    &&& b.subrange(0, a.len() as int) == a
    &&& b[a.len() as int] == '/'
}

/// A directory entry that the walk never descends into: an ignored
/// directory, or one named like the ignore file.
pub open spec fn dir_suppresses(e: EntryV, rules: Seq<Seq<char>>) -> bool {
    e.is_dir && (is_ignored_spec(e.rel, rules) || file_name_of(e.rel) == ignore_file_name())
}

/// Whether entry `i` lies under a directory that the walk skips, so no
/// operation is produced for it at all.
pub open spec fn entry_shadowed(entries: Seq<EntryV>, i: int, rules: Seq<Seq<char>>) -> bool {
    exists|j: int|
        0 <= j < entries.len() && dir_suppresses(#[trigger] entries[j], rules)
            && strict_dir_prefix(entries[j].rel, entries[i].rel)
}

/// What the planner does with one visible entry.
pub enum PlanStepV {
    Nothing,
    Emit(OpV),
    Fail(StowErrKind),
}

/// Classify one entry of the walk: the ignore file itself is passed
/// over, ignored entries are reported as skipped, directories produce
/// no operation of their own, and files are classified against their
/// target.
pub open spec fn plan_entry(
    e: EntryV,
    rules: Seq<Seq<char>>,
    root: Seq<char>,
    target_dir: Seq<char>,
) -> PlanStepV {
    if file_name_of(e.rel) == ignore_file_name() {
        PlanStepV::Nothing
    } else if is_ignored_spec(e.rel, rules) {
        PlanStepV::Emit(
            OpV {
                source: join_chars(root, e.rel),
                target: join_chars(target_dir, e.rel),
                op: OpTypeV::Skip(ignored_reason()),
            },
        )
    } else if e.is_dir {
        PlanStepV::Nothing
    } else {
        match classify_target(join_chars(root, e.rel), e.target) {
            Ok(op) => PlanStepV::Emit(
                OpV {
                    source: join_chars(root, e.rel),
                    target: join_chars(target_dir, e.rel),
                    op,
                },
            ),
            Err(k) => PlanStepV::Fail(k),
        }
    }
}

/// The plan for the entries from `i` on: operations in walk order, cut
/// short by the first conflict.
pub open spec fn plan_rec(
    t: TreeV,
    rules: Seq<Seq<char>>,
    target_dir: Seq<char>,
    i: int,
) -> Result<Seq<OpV>, StowErrKind>
    decreases t.entries.len() - i,
{
    if i < 0 || i >= t.entries.len() {
        Ok(Seq::empty())
    } else {
        let rest = plan_rec(t, rules, target_dir, i + 1);
        if entry_shadowed(t.entries, i, rules) {
            rest
        } else {
            match plan_entry(t.entries[i], rules, t.root, target_dir) {
                PlanStepV::Nothing => rest,
                PlanStepV::Emit(op) => match rest {
                    Ok(s) => Ok(seq![op] + s),
                    Err(k) => Err(k),
                },
                PlanStepV::Fail(k) => Err(k),
            }
        }
    }
}

/// The whole plan of a package tree against a target root.
pub open spec fn plan_spec(t: TreeV, target_dir: Seq<char>) -> Result<Seq<OpV>, StowErrKind> {
    plan_rec(t, ignore_rules_spec(t.ignore_file), target_dir, 0)
}

/// The view of an `analyze_package` result.
pub open spec fn plan_result_view(r: Result<Vec<SymlinkOp>, StowError>) -> Result<
    Seq<OpV>,
    StowErrKind,
> {
    match r {
        Ok(v) => Ok(v@.map_values(|o: SymlinkOp| o@)),
        Err(e) => Err(e@),
    }
}

fn is_shadowed(entries: &Vec<ScanEntry>, i: usize, rules: &Vec<String>) -> (r: bool)
    requires
        i < entries@.len(),
    ensures
        r == entry_shadowed(
            entries@.map_values(|e: ScanEntry| e@),
            i as int,
            rules@.map_values(|p: String| p@),
        ),
{
    let ghost sentries = entries@.map_values(|e: ScanEntry| e@);
    let ghost srules = rules@.map_values(|p: String| p@);
    let rel = &entries[i].rel_path;
    let rel_len = rel.as_str().unicode_len();
    let mut j: usize = 0;
    while j < entries.len()
        invariant
            j <= entries.len(),
            i < entries@.len(),
            sentries == entries@.map_values(|e: ScanEntry| e@),
            srules == rules@.map_values(|p: String| p@),
            rel@ == sentries[i as int].rel,
            rel_len == rel@.len(),
            forall|q: int|
                0 <= q < j ==> !(dir_suppresses(#[trigger] sentries[q], srules)
                    && strict_dir_prefix(sentries[q].rel, sentries[i as int].rel)),
        decreases entries.len() - j,
    {
        let e = &entries[j];
        if e.is_dir {
            let p = &e.rel_path;
            let p_len = p.as_str().unicode_len();
            let prefix_ok = p_len < rel_len && match_at(rel.as_str(), p.as_str(), 0)
                && rel.as_str().get_char(p_len) == '/';
            if prefix_ok {
                let suppressing = {
                    let name = file_name(p.as_str());
                    is_ignored(p.as_str(), rules) || str_eq(name.as_str(), ".stow-local-ignore")
                };
                if suppressing {
                    assert(dir_suppresses(sentries[j as int], srules));
                    assert(strict_dir_prefix(sentries[j as int].rel, sentries[i as int].rel));
                    return true;
                }
            }
        }
        j += 1;
    }
    false
}

/// Analyze one package against a target root.
///
/// A missing or non-directory package root is an `InvalidPackage`
/// error, if and only if.  Otherwise the result is exactly the plan of
/// the snapshot: deterministic, so an unchanged tree always yields the
/// same operation list.
pub fn analyze_package(tree: &PackageTree, target_dir: &str) -> (r: Result<
    Vec<SymlinkOp>,
    StowError,
>)
    ensures
        !tree.root_exists ==> (r matches Err(e) && e@ == StowErrKind::InvalidPackage),
        tree.root_exists && !tree.root_is_dir ==> (r matches Err(e) && e@
            == StowErrKind::InvalidPackage),
        tree.root_exists && tree.root_is_dir ==> plan_result_view(r) == plan_spec(
            tree@,
            target_dir@,
        ),
{
    if !tree.root_exists {
        return Err(
            StowError::InvalidPackage(
                concat_str(
                    String::from_str("Package path does not exist: "),
                    tree.root.as_str(),
                ),
            ),
        );
    }
    if !tree.root_is_dir {
        return Err(
            StowError::InvalidPackage(
                concat_str(
                    String::from_str("Package path is not a directory: "),
                    tree.root.as_str(),
                ),
            ),
        );
    }
    let rules = parse_ignore_rules(&tree.ignore_file);
    let ghost t = tree@;
    let ghost srules = rules@.map_values(|p: String| p@);
    let ghost total = plan_rec(t, srules, target_dir@, 0);
    let mut ops: Vec<SymlinkOp> = Vec::new();
    let mut i: usize = 0;
    while i < tree.entries.len()
        invariant
            i <= tree.entries@.len(),
            t == tree@,
            tree.root_exists,
            tree.root_is_dir,
            srules == rules@.map_values(|p: String| p@),
            srules == ignore_rules_spec(t.ignore_file),
            total == plan_rec(t, srules, target_dir@, 0),
            total == match plan_rec(t, srules, target_dir@, i as int) {
                Ok(rest) => Ok::<Seq<OpV>, StowErrKind>(
                    ops@.map_values(|o: SymlinkOp| o@) + rest,
                ),
                Err(k) => Err::<Seq<OpV>, StowErrKind>(k),
            },
        decreases tree.entries@.len() - i,
    {
        let ghost before = ops@;
        proof {
            assert(t.entries[i as int] == tree.entries@.map_values(|e: ScanEntry| e@)[i as int]);
        }
        if !is_shadowed(&tree.entries, i, &rules) {
            let e = &tree.entries[i];
            let name = file_name(e.rel_path.as_str());
            if !str_eq(name.as_str(), ".stow-local-ignore") {
                if is_ignored(e.rel_path.as_str(), &rules) {
                    let op = SymlinkOp {
                        source: join_path(tree.root.as_str(), e.rel_path.as_str()),
                        target: join_path(target_dir, e.rel_path.as_str()),
                        op_type: OpType::Skip(String::from_str("Ignored by .stow-local-ignore")),
                    };
                    ops.push(op);
                    proof {
                        assert(ops@.map_values(|o: SymlinkOp| o@) =~= before.map_values(
                            |o: SymlinkOp| o@,
                        ).push(
                            OpV {
                                source: join_chars(t.root, t.entries[i as int].rel),
                                target: join_chars(target_dir@, t.entries[i as int].rel),
                                op: OpTypeV::Skip(ignored_reason()),
                            },
                        ));
                        assert(plan_entry(t.entries[i as int], srules, t.root, target_dir@)
                            == PlanStepV::Emit(
                            OpV {
                                source: join_chars(t.root, t.entries[i as int].rel),
                                target: join_chars(target_dir@, t.entries[i as int].rel),
                                op: OpTypeV::Skip(ignored_reason()),
                            },
                        ));
                        match plan_rec(t, srules, target_dir@, i + 1) {
                            Ok(rest) => {
                                assert(before.map_values(|o: SymlinkOp| o@) + (seq![
                                    OpV {
                                        source: join_chars(t.root, t.entries[i as int].rel),
                                        target: join_chars(target_dir@, t.entries[i as int].rel),
                                        op: OpTypeV::Skip(ignored_reason()),
                                    },
                                ] + rest) =~= ops@.map_values(|o: SymlinkOp| o@) + rest);
                            }
                            Err(_) => {}
                        }
                    }
                } else if !e.is_dir {
                    let source = join_path(tree.root.as_str(), e.rel_path.as_str());
                    let target = join_path(target_dir, e.rel_path.as_str());
                    match determine_operation(source.as_str(), target.as_str(), &e.target) {
                        Ok(op_type) => {
                            let ghost opv = OpV {
                                source: source@,
                                target: target@,
                                op: op_type@,
                            };
                            let op = SymlinkOp { source, target, op_type };
                            ops.push(op);
                            proof {
                                assert(ops@.map_values(|o: SymlinkOp| o@) =~= before.map_values(
                                    |o: SymlinkOp| o@,
                                ).push(opv));
                                assert(plan_entry(
                                    t.entries[i as int],
                                    srules,
                                    t.root,
                                    target_dir@,
                                ) == PlanStepV::Emit(opv));
                                match plan_rec(t, srules, target_dir@, i + 1) {
                                    Ok(rest) => {
                                        assert(before.map_values(|o: SymlinkOp| o@) + (seq![opv]
                                            + rest) =~= ops@.map_values(|o: SymlinkOp| o@)
                                            + rest);
                                    }
                                    Err(_) => {}
                                }
                            }
                        }
                        Err(e) => {
                            proof {
                                assert(plan_rec(t, srules, target_dir@, i as int) == Err::<
                                    Seq<OpV>,
                                    StowErrKind,
                                >(e@));
                            }
                            return Err(e);
                        }
                    }
                }
            }
        }
        i += 1;
    }
    proof {
        assert(plan_rec(t, srules, target_dir@, tree.entries@.len() as int) == Ok::<
            Seq<OpV>,
            StowErrKind,
        >(Seq::empty()));
        assert(ops@.map_values(|o: SymlinkOp| o@) + Seq::<OpV>::empty() =~= ops@.map_values(
            |o: SymlinkOp| o@,
        ));
    }
    Ok(ops)
}

// ---- laws of the planner ------------------------------------------------

/// The planner is deterministic: two snapshots that agree give the
/// same plan, so replanning an unchanged tree repeats the operation
/// list exactly.
pub proof fn lemma_plan_deterministic(t1: TreeV, t2: TreeV, target_dir: Seq<char>)
    requires
        t1 == t2,
    ensures
        plan_spec(t1, target_dir) == plan_spec(t2, target_dir),
{
}

/// Once a planned `Create` has been carried out, the target holds a
/// symlink to the operation's source, and the next plan classifies the
/// same entry as already linked: executing and replanning converges.
pub proof fn lemma_create_then_skip(
    e: EntryV,
    rules: Seq<Seq<char>>,
    root: Seq<char>,
    target_dir: Seq<char>,
    op: OpV,
)
    requires
        plan_entry(e, rules, root, target_dir) == PlanStepV::Emit(op),
        op.op == OpTypeV::Create,
    ensures
        plan_entry(
            EntryV { target: TargetStateV::SymlinkTo(op.source), ..e },
            rules,
            root,
            target_dir,
        ) == PlanStepV::Emit(OpV { op: OpTypeV::Skip(already_linked_reason()), ..op }),
{
}

/// Whether the plan makes a link for this entry.
pub open spec fn entry_creates(
    e: EntryV,
    rules: Seq<Seq<char>>,
    root: Seq<char>,
    target_dir: Seq<char>,
) -> bool {
    plan_entry(e, rules, root, target_dir) matches PlanStepV::Emit(op) && op.op is Create
}

/// The tree as the filesystem shows it after a successful run of the
/// plan: each target of a planned `Create` now holds the link to its
/// source.
pub open spec fn after_execute(t: TreeV, target_dir: Seq<char>) -> TreeV {
    let rules = ignore_rules_spec(t.ignore_file);
    TreeV {
        entries: Seq::new(
            t.entries.len(),
            |i: int|
                if !entry_shadowed(t.entries, i, rules) && entry_creates(
                    t.entries[i],
                    rules,
                    t.root,
                    target_dir,
                ) {
                    EntryV {
                        target: TargetStateV::SymlinkTo(join_chars(t.root, t.entries[i].rel)),
                        ..t.entries[i]
                    }
                } else {
                    t.entries[i]
                },
        ),
        ..t
    }
}

/// The operations as the next plan reports them: every carried-out
/// `Create` has become a `Skip` of an already-correct link.
pub open spec fn mark_linked(ops: Seq<OpV>) -> Seq<OpV> {
    ops.map_values(
        |op: OpV|
            if op.op is Create {
                OpV { op: OpTypeV::Skip(already_linked_reason()), ..op }
            } else {
                op
            },
    )
}

proof fn lemma_shadow_only_shape(
    e1: Seq<EntryV>,
    e2: Seq<EntryV>,
    i: int,
    rules: Seq<Seq<char>>,
)
    requires
        e1.len() == e2.len(),
        0 <= i < e1.len(),
        forall|j: int|
            0 <= j < e1.len() ==> #[trigger] e2[j].rel == e1[j].rel && e2[j].is_dir
                == e1[j].is_dir,
    ensures
        entry_shadowed(e1, i, rules) == entry_shadowed(e2, i, rules),
{
    if entry_shadowed(e1, i, rules) {
        let j = choose|j: int|
            0 <= j < e1.len() && dir_suppresses(#[trigger] e1[j], rules) && strict_dir_prefix(
                e1[j].rel,
                e1[i].rel,
            );
        assert(e2[j].rel == e1[j].rel && e2[j].is_dir == e1[j].is_dir);
        assert(e2[i].rel == e1[i].rel && e2[i].is_dir == e1[i].is_dir);
        assert(dir_suppresses(e2[j], rules));
        assert(strict_dir_prefix(e2[j].rel, e2[i].rel));
    }
    if entry_shadowed(e2, i, rules) {
        let j = choose|j: int|
            0 <= j < e2.len() && dir_suppresses(#[trigger] e2[j], rules) && strict_dir_prefix(
                e2[j].rel,
                e2[i].rel,
            );
        assert(e2[j].rel == e1[j].rel && e2[j].is_dir == e1[j].is_dir);
        assert(e2[i].rel == e1[i].rel && e2[i].is_dir == e1[i].is_dir);
        assert(dir_suppresses(e1[j], rules));
        assert(strict_dir_prefix(e1[j].rel, e1[i].rel));
    }
}

proof fn lemma_replan_rec(t: TreeV, target_dir: Seq<char>, i: int)
    requires
        0 <= i <= t.entries.len(),
    ensures
        ({
            let rules = ignore_rules_spec(t.ignore_file);
            let t2 = after_execute(t, target_dir);
            match plan_rec(t, rules, target_dir, i) {
                Ok(ops) => plan_rec(t2, rules, target_dir, i) == Ok::<Seq<OpV>, StowErrKind>(
                    mark_linked(ops),
                ),
                Err(_) => true,
            }
        }),
    decreases t.entries.len() - i,
{
    let rules = ignore_rules_spec(t.ignore_file);
    let t2 = after_execute(t, target_dir);
    assert(t2.entries.len() == t.entries.len());
    assert forall|j: int|
        0 <= j < t.entries.len() implies #[trigger] t2.entries[j].rel == t.entries[j].rel
            && t2.entries[j].is_dir == t.entries[j].is_dir by {}
    if i < t.entries.len() {
        lemma_replan_rec(t, target_dir, i + 1);
        lemma_shadow_only_shape(t.entries, t2.entries, i, rules);
        match plan_rec(t, rules, target_dir, i) {
            Ok(ops) => {
                if !entry_shadowed(t.entries, i, rules) {
                    match plan_entry(t.entries[i], rules, t.root, target_dir) {
                        PlanStepV::Nothing => {
                            assert(t2.entries[i] == t.entries[i]);
                        }
                        PlanStepV::Emit(op) => {
                            match plan_rec(t, rules, target_dir, i + 1) {
                                Ok(rest) => {
                                    if op.op is Create {
                                        assert(plan_entry(
                                            t2.entries[i],
                                            rules,
                                            t.root,
                                            target_dir,
                                        ) == PlanStepV::Emit(
                                            OpV {
                                                op: OpTypeV::Skip(already_linked_reason()),
                                                ..op
                                            },
                                        ));
                                    } else {
                                        assert(t2.entries[i] == t.entries[i]);
                                    }
                                    assert(mark_linked(seq![op] + rest) =~= seq![
                                        if op.op is Create {
                                            OpV {
                                                op: OpTypeV::Skip(already_linked_reason()),
                                                ..op
                                            }
                                        } else {
                                            op
                                        },
                                    ] + mark_linked(rest));
                                }
                                Err(_) => {}
                            }
                        }
                        PlanStepV::Fail(_) => {}
                    }
                }
            }
            Err(_) => {}
        }
    } else {
        assert(mark_linked(Seq::<OpV>::empty()) =~= Seq::<OpV>::empty());
    }
}

/// Executing converges: once a plan's `Create` operations have been
/// carried out, planning the same package again yields the same list
/// with each of those operations reported as already linked, and no
/// new work.
pub proof fn lemma_execute_then_replan(t: TreeV, target_dir: Seq<char>, ops: Seq<OpV>)
    requires
        plan_spec(t, target_dir) == Ok::<Seq<OpV>, StowErrKind>(ops),
    ensures
        plan_spec(after_execute(t, target_dir), target_dir) == Ok::<Seq<OpV>, StowErrKind>(
            mark_linked(ops),
        ),
{
    lemma_replan_rec(t, target_dir, 0);
}

proof fn lemma_plan_rec_err_kind(
    t: TreeV,
    rules: Seq<Seq<char>>,
    target_dir: Seq<char>,
    j: int,
    i: int,
)
    requires
        0 <= j <= i < t.entries.len(),
        !entry_shadowed(t.entries, i, rules),
        plan_entry(t.entries[i], rules, t.root, target_dir) == PlanStepV::Fail(
            StowErrKind::ConflictDetected,
        ),
        forall|q: int|
            0 <= q < t.entries.len() ==> (plan_entry(
                #[trigger] t.entries[q],
                rules,
                t.root,
                target_dir,
            ) matches PlanStepV::Fail(k) ==> k == StowErrKind::ConflictDetected),
    ensures
        plan_rec(t, rules, target_dir, j) == Err::<Seq<OpV>, StowErrKind>(
            StowErrKind::ConflictDetected,
        ),
    decreases i - j,
{
    if j < i {
        lemma_plan_rec_err_kind(t, rules, target_dir, j + 1, i);
    }
}

/// A plain file or directory standing at the target of a would-be
/// `Create` makes the whole plan fail with `ConflictDetected`: the
/// planner never silently overwrites foreign content.
pub proof fn lemma_conflict_detected(t: TreeV, target_dir: Seq<char>, i: int)
    requires
        0 <= i < t.entries.len(),
        !t.entries[i].is_dir,
        t.entries[i].target == TargetStateV::PresentFile || t.entries[i].target
            == TargetStateV::PresentDir,
        !entry_shadowed(t.entries, i, ignore_rules_spec(t.ignore_file)),
        file_name_of(t.entries[i].rel) != ignore_file_name(),
        !is_ignored_spec(t.entries[i].rel, ignore_rules_spec(t.ignore_file)),
    ensures
        plan_spec(t, target_dir) == Err::<Seq<OpV>, StowErrKind>(StowErrKind::ConflictDetected),
{
    let rules = ignore_rules_spec(t.ignore_file);
    assert(plan_entry(t.entries[i], rules, t.root, target_dir) == PlanStepV::Fail(
        StowErrKind::ConflictDetected,
    ));
    assert forall|q: int| 0 <= q < t.entries.len() implies (plan_entry(
        #[trigger] t.entries[q],
        rules,
        t.root,
        target_dir,
    ) matches PlanStepV::Fail(k) ==> k == StowErrKind::ConflictDetected) by {}
    lemma_plan_rec_err_kind(t, rules, target_dir, 0, i);
}

// ---- the executor -------------------------------------------------------

/// One executor action.  The `Would*` actions only describe; the `Do*`
/// actions name a filesystem mutation confined to the operation's
/// target path.
pub enum ExecAction {
    WouldCreate { target: String, source: String },
    DoCreate { target: String, source: String },
    WouldRemove { target: String },
    DoRemoveIfSymlink { target: String },
    Note { target: String, reason: String },
}

pub enum ExecActionV {
    WouldCreate { target: Seq<char>, source: Seq<char> },
    DoCreate { target: Seq<char>, source: Seq<char> },
    WouldRemove { target: Seq<char> },
    DoRemoveIfSymlink { target: Seq<char> },
    Note { target: Seq<char>, reason: Seq<char> },
}

impl View for ExecAction {
    type V = ExecActionV;

    open spec fn view(&self) -> ExecActionV {
        match self {
            ExecAction::WouldCreate { target, source } => ExecActionV::WouldCreate {
                target: target@,
                source: source@,
            },
            ExecAction::DoCreate { target, source } => ExecActionV::DoCreate {
                target: target@,
                source: source@,
            },
            ExecAction::WouldRemove { target } => ExecActionV::WouldRemove { target: target@ },
            ExecAction::DoRemoveIfSymlink { target } => ExecActionV::DoRemoveIfSymlink {
                target: target@,
            },
            ExecAction::Note { target, reason } => ExecActionV::Note {
                target: target@,
                reason: reason@,
            },
        }
    }
}

/// Whether an action mutates the filesystem.
pub open spec fn action_mutates(a: ExecActionV) -> bool {
    match a {
        ExecActionV::DoCreate { .. } => true,
        ExecActionV::DoRemoveIfSymlink { .. } => true,
        _ => false,
    }
}

/// The action that one operation calls for.
pub open spec fn action_for(op: OpV, dry_run: bool) -> ExecActionV {
    match op.op {
        OpTypeV::Create => if dry_run {
            ExecActionV::WouldCreate { target: op.target, source: op.source }
        } else {
            ExecActionV::DoCreate { target: op.target, source: op.source }
        },
        OpTypeV::Remove => if dry_run {
            ExecActionV::WouldRemove { target: op.target }
        } else {
            ExecActionV::DoRemoveIfSymlink { target: op.target }
        },
        OpTypeV::Skip(reason) => ExecActionV::Note { target: op.target, reason },
    }
}

/// Turn a plan into one action per operation.
///
/// A dry run produces only descriptive actions and never a mutating
/// one; a real run mutates only at the targets the plan names, and a
/// `Remove` is carried out only on a symlink, never on a real file.
pub fn execute_operations(ops: &Vec<SymlinkOp>, dry_run: bool) -> (steps: Vec<ExecAction>)
    ensures
        steps@.len() == ops@.len(),
        forall|i: int|
            0 <= i < ops@.len() ==> #[trigger] steps@[i]@ == action_for(ops@[i]@, dry_run),
        dry_run ==> forall|i: int| 0 <= i < steps@.len() ==> !action_mutates(#[trigger] steps@[i]@),
{
    let mut steps: Vec<ExecAction> = Vec::new();
    let mut i: usize = 0;
    while i < ops.len()
        invariant
            i <= ops@.len(),
            steps@.len() == i,
            forall|j: int|
                0 <= j < i ==> #[trigger] steps@[j]@ == action_for(ops@[j]@, dry_run),
        decreases ops@.len() - i,
    {
        let op = &ops[i];
        let step = match &op.op_type {
            OpType::Create => {
                if dry_run {
                    ExecAction::WouldCreate {
                        target: copy_str(op.target.as_str()),
                        source: copy_str(op.source.as_str()),
                    }
                } else {
                    ExecAction::DoCreate {
                        target: copy_str(op.target.as_str()),
                        source: copy_str(op.source.as_str()),
                    }
                }
            }
            OpType::Remove => {
                if dry_run {
                    ExecAction::WouldRemove { target: copy_str(op.target.as_str()) }
                } else {
                    ExecAction::DoRemoveIfSymlink { target: copy_str(op.target.as_str()) }
                }
            }
            OpType::Skip(reason) => ExecAction::Note {
                target: copy_str(op.target.as_str()),
                reason: copy_str(reason.as_str()),
            },
        };
        steps.push(step);
        i += 1;
    }
    steps
}

} // verus!
