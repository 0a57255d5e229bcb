//! Turning what the user asked for into a transfer request.

use vstd::prelude::*;
use crate::api::gdrive::utils::{gdrive_id, parse_gdrive_id};
use crate::json::{json_string, quote};
use crate::paths::{
    begins_with_two_separators, file_name, is_plain_component, join, parent, path_file_name,
    path_join, path_parent,
};
use crate::text::{
    extend, extend_str, from_chars, opt_text, str_eq, strip_leading, texts, to_chars,
    trim_start_matches,
};

verus! {

/// Name of the folder that a download is nested under when asked to.
pub const ARCHIVE_FOLDER: &'static str = "Unofficial-Neuro-Karaoke-Archive";

/// What a backup directory's name starts with; a timestamp follows.
pub const BACKUP_PREFIX: &'static str = "Backup-KAR-";

/// The only include rule of a selection that selects nothing. No file of the
/// archive bears this name.
pub const EMPTY_SELECTION_RULE: &'static str = "non_existent_file_marker";

/// How the timestamp of a backup directory is written: date and time of day,
/// to the second.
pub const TIMESTAMP_FORMAT: &'static str = "%Y%m%d_%H%M%S";

/// What the user is told when a request names no remote.
pub const MISSING_IDENTITY: &'static str =
    "Remote configuration is required. Please authorize first.";

/// What the user is told when the destination has no parent directory.
pub const NO_PARENT_DIRECTORY: &'static str = "Cannot get parent directory of destination";

/// Why a transfer request could not be built.
#[derive(Debug, Clone, Copy, PartialEq, Eq, Structural)]
pub enum ConfigError {
    /// No remote was named: authorization has to come first.
    MissingIdentity,
    /// The destination has no parent directory to hold a backup.
    NoParentDirectory,
}

impl ConfigError {
    /// The text shown to the user.
    pub fn message(&self) -> (m: String)
        ensures
            m@ == match *self {
                ConfigError::MissingIdentity => MISSING_IDENTITY@,
                ConfigError::NoParentDirectory => NO_PARENT_DIRECTORY@,
            },
    {
        match self {
            ConfigError::MissingIdentity => MISSING_IDENTITY.to_owned(),
            ConfigError::NoParentDirectory => NO_PARENT_DIRECTORY.to_owned(),
        }
    }
}

/// How the destination is brought in line with the source.
#[derive(Debug, Clone, Copy, PartialEq, Eq, Structural)]
pub enum TransferMode {
    /// Add and update files; never delete.
    Copy,
    /// Make the destination equal to the source, deleting what the source lacks.
    Sync {
        /// Also delete destination files that the selection leaves out.
        delete_excluded: bool,
    },
}

impl TransferMode {
    /// The backend call that carries out this mode.
    pub open spec fn endpoint_path(self) -> Seq<char> {
        match self {
            TransferMode::Copy => "/sync/copy"@,
            TransferMode::Sync { .. } => "/sync/sync"@,
        }
    }

    /// The backend call that carries out this mode.
    pub fn endpoint(&self) -> (path: &'static str)
        ensures
            path@ == self.endpoint_path(),
    {
        match self {
            TransferMode::Copy => "/sync/copy",
            TransferMode::Sync { .. } => "/sync/sync",
        }
    }
}

/// What a `DownloadConfig` stands for.
pub struct TransferRequest {
    pub source: Seq<char>,
    pub destination: Seq<char>,
    pub remote_config: Seq<char>,
    pub sync_mode: bool,
    pub create_subfolder: bool,
    pub selected_files: Option<Seq<Seq<char>>>,
    pub create_backup: bool,
    pub delete_excluded: bool,
}

impl TransferRequest {
    /// Copy, or sync with its delete-excluded choice. Under copy the
    /// delete-excluded choice has no meaning and is left out.
    pub open spec fn mode(self) -> TransferMode {
        if self.sync_mode {
            TransferMode::Sync { delete_excluded: self.delete_excluded }
        } else {
            TransferMode::Copy
        }
    }
}

/// One transfer as the user asked for it. It always names a remote.
pub struct DownloadConfig {
    source: String,
    destination: String,
    remote_config: String,
    sync_mode: bool,
    create_subfolder: bool,
    selected_files: Option<Vec<String>>,
    create_backup: bool,
    delete_excluded: bool,
}

impl View for DownloadConfig {
    type V = TransferRequest;

    closed spec fn view(&self) -> TransferRequest {
        TransferRequest {
            source: self.source@,
            destination: self.destination@,
            remote_config: self.remote_config@,
            sync_mode: self.sync_mode,
            create_subfolder: self.create_subfolder,
            selected_files: match self.selected_files {
                Some(files) => Some(texts(files@)),
                None => None,
            },
            create_backup: self.create_backup,
            delete_excluded: self.delete_excluded,
        }
    }
}

/// The two ends of a transfer as the backend addresses them.
#[derive(Debug, PartialEq, Eq)]
pub struct FilesystemPaths {
    pub src_fs: String,
    pub dst_fs: String,
    pub backup_path: Option<String>,
}

/// What a `FilesystemPaths` stands for.
pub struct PathsModel {
    pub src_fs: Seq<char>,
    pub dst_fs: Seq<char>,
    pub backup_path: Option<Seq<char>>,
}

impl View for FilesystemPaths {
    type V = PathsModel;

    open spec fn view(&self) -> PathsModel {
        PathsModel {
            src_fs: self.src_fs@,
            dst_fs: self.dst_fs@,
            backup_path: opt_text(self.backup_path),
        }
    }
}

/// The remote folder as the backend addresses it: the remote's name, the root
/// folder identifier as a connection parameter, and an empty path.
pub open spec fn source_fs(remote_config: Seq<char>, source: Seq<char>) -> Seq<char> {
    remote_config + ",root_folder_id="@ + gdrive_id(source) + ":"@
}

/// Where the files go: the destination itself, or the archive folder under it
/// unless the destination's last component already is that folder.
pub open spec fn destination_path(destination: Seq<char>, create_subfolder: bool) -> Seq<char> {
    if create_subfolder && path_file_name(destination) != Some(ARCHIVE_FOLDER@) {
        path_join(destination, ARCHIVE_FOLDER@)
    } else {
        destination
    }
}

/// The backup directory for a destination: a sibling of it, named by the
/// prefix and the timestamp. `None` where the destination has no parent.
pub open spec fn backup_path(dst_path: Seq<char>, timestamp: Seq<char>) -> Option<Seq<char>> {
    match path_parent(dst_path) {
        Some(dir) => Some(path_join(dir, BACKUP_PREFIX@ + timestamp)),
        None => None,
    }
}

/// The paths of a request whose backup, if any, is stamped `timestamp`.
pub open spec fn filesystem_paths(req: TransferRequest, timestamp: Seq<char>) -> Result<
    PathsModel,
    ConfigError,
> {
    let dst = destination_path(req.destination, req.create_subfolder);
    if req.create_backup && backup_path(dst, timestamp) is None {
        Err(ConfigError::NoParentDirectory)
    } else {
        Ok(
            PathsModel {
                src_fs: source_fs(req.remote_config, req.source),
                dst_fs: dst,
                backup_path: if req.create_backup {
                    backup_path(dst, timestamp)
                } else {
                    None
                },
            },
        )
    }
}

/// The allow-list of a transfer, as the backend takes it.
#[derive(Debug, PartialEq, Eq)]
pub struct TransferFilter {
    pub include_rule: Vec<String>,
    pub delete_excluded: bool,
}

/// What a `TransferFilter` stands for.
pub struct FilterModel {
    pub include_rule: Seq<Seq<char>>,
    pub delete_excluded: bool,
}

impl View for TransferFilter {
    type V = FilterModel;

    open spec fn view(&self) -> FilterModel {
        FilterModel {
            include_rule: texts(self.include_rule@),
            delete_excluded: self.delete_excluded,
        }
    }
}

/// The rule that admits the selected path itself.
pub open spec fn exact_rule(file: Seq<char>) -> Seq<char> {
    "/"@ + strip_leading(file, '/')
}

/// The rule that admits everything below the selected path.
pub open spec fn subtree_rule(file: Seq<char>) -> Seq<char> {
    "/"@ + strip_leading(file, '/') + "/**"@
}

/// The include rules of a selection: for each selected path its exact rule
/// and then its subtree rule, in the order of the selection. A selection of
/// nothing gets the one rule that admits no file.
pub open spec fn include_rules(files: Seq<Seq<char>>) -> Seq<Seq<char>> {
    if files.len() == 0 {
        seq![EMPTY_SELECTION_RULE@]
    } else {
        Seq::new(
            2 * files.len(),
            |k: int|
                if k % 2 == 0 {
                    exact_rule(files[k / 2])
                } else {
                    subtree_rule(files[k / 2])
                },
        )
    }
}

/// One transfer request as it goes to the backend. It always asks for
/// asynchronous execution.
#[derive(Debug, PartialEq, Eq)]
pub struct RequestBody {
    pub src_fs: String,
    pub dst_fs: String,
    pub backup_dir: Option<String>,
    pub dry_run: bool,
    pub filter: Option<TransferFilter>,
}

/// What a `RequestBody` stands for.
pub struct BodyModel {
    pub src_fs: Seq<char>,
    pub dst_fs: Seq<char>,
    pub backup_dir: Option<Seq<char>>,
    pub dry_run: bool,
    pub filter: Option<FilterModel>,
}

impl View for RequestBody {
    type V = BodyModel;

    open spec fn view(&self) -> BodyModel {
        BodyModel {
            src_fs: self.src_fs@,
            dst_fs: self.dst_fs@,
            backup_dir: opt_text(self.backup_dir),
            dry_run: self.dry_run,
            filter: match self.filter {
                Some(f) => Some(f@),
                None => None,
            },
        }
    }
}

/// The request for a transfer between `paths`. A selection becomes a filter;
/// the filter asks to delete what it leaves out only in a sync that chose so.
/// The request is no dry run.
pub open spec fn request_body(req: TransferRequest, paths: PathsModel) -> BodyModel {
    BodyModel {
        src_fs: paths.src_fs,
        dst_fs: paths.dst_fs,
        backup_dir: paths.backup_path,
        dry_run: false,
        filter: match req.selected_files {
            Some(files) => Some(
                FilterModel {
                    include_rule: include_rules(files),
                    delete_excluded: req.sync_mode && req.delete_excluded,
                },
            ),
            None => None,
        },
    }
}

/// The request for a preview of a sync between `paths`: that of the sync,
/// whatever mode the request names, marked as a dry run so that the backend
/// changes nothing.
pub open spec fn dry_run_request_body(req: TransferRequest, paths: PathsModel) -> BodyModel {
    BodyModel { dry_run: true, ..request_body(TransferRequest { sync_mode: true, ..req }, paths) }
}

/// The texts of `items` as JSON strings with commas between them.
pub open spec fn json_strings(items: Seq<Seq<char>>) -> Seq<char>
    decreases items.len(),
{
    if items.len() == 0 {
        Seq::empty()
    } else if items.len() == 1 {
        json_string(items[0])
    } else {
        json_strings(items.drop_last()) + ","@ + json_string(items.last())
    }
}

/// The `_config` member of a request, with the comma before it: the backup
/// directory and the dry-run mark, as far as the request has them. Empty
/// where it has neither.
pub open spec fn config_json(backup_dir: Option<Seq<char>>, dry_run: bool) -> Seq<char> {
    match backup_dir {
        Some(dir) => if dry_run {
            ",\"_config\":{\"BackupDir\":"@ + json_string(dir) + ",\"DryRun\":true}"@
        } else {
            ",\"_config\":{\"BackupDir\":"@ + json_string(dir) + "}"@
        },
        None => if dry_run {
            ",\"_config\":{\"DryRun\":true}"@
        } else {
            Seq::empty()
        },
    }
}

/// The `_filter` member of a request, with the comma before it. Empty where
/// the request has no filter.
pub open spec fn filter_json(filter: Option<FilterModel>) -> Seq<char> {
    match filter {
        Some(f) => ",\"_filter\":{\"IncludeRule\":["@ + json_strings(f.include_rule)
            + if f.delete_excluded {
            "],\"DeleteExcluded\":true}"@
        } else {
            "]}"@
        },
        None => Seq::empty(),
    }
}

/// The request as the JSON object that is posted to the backend.
pub open spec fn body_json(body: BodyModel) -> Seq<char> {
    "{\"_async\":true,\"srcFs\":"@ + json_string(body.src_fs) + ",\"dstFs\":"@ + json_string(
        body.dst_fs,
    ) + config_json(body.backup_dir, body.dry_run) + filter_json(body.filter) + "}"@
}

/// The views of the outcome of building paths.
pub open spec fn paths_outcome(r: Result<FilesystemPaths, ConfigError>) -> Result<
    PathsModel,
    ConfigError,
> {
    match r {
        Ok(paths) => Ok(paths@),
        Err(e) => Err(e),
    }
}

/// The local date and time, written after `pattern`.
///
/// Trusted: the body is `chrono::Local::now().format(pattern).to_string()`.
/// What comes back depends on the clock and the time zone, so the contract
/// promises nothing of it. Writing the text panics in chrono when the pattern
/// has a specifier it does not know; the one pattern admitted has none.
#[verifier::external_body]
fn local_time_text(pattern: &str) -> (text: String)
    requires
        pattern@ == TIMESTAMP_FORMAT@,
{
    chrono::Local::now().format(pattern).to_string()
}

/// The include rules for a selection of paths relative to the source folder.
///
/// A non-empty selection of `n` paths gives `2 * n` rules: for the path at
/// position `i`, rule `2 * i` is `/` and the path without its leading
/// slashes, and rule `2 * i + 1` is the same followed by `/**`. An empty
/// selection gives the single rule that matches no file, so that nothing is
/// transferred.
pub fn build_file_filter(files: &[String]) -> (filter: TransferFilter)
    ensures
        filter@.include_rule == include_rules(texts(files@)),
        !filter.delete_excluded,
        files@.len() == 0 ==> filter@.include_rule == seq![EMPTY_SELECTION_RULE@],
        files@.len() > 0 ==> filter@.include_rule.len() == 2 * files@.len(),
        files@.len() > 0 ==> forall|i: int|
            0 <= i < files@.len() ==> {
                &&& #[trigger] filter@.include_rule[2 * i] == "/"@ + strip_leading(files@[i]@, '/')
                &&& filter@.include_rule[2 * i + 1] == "/"@ + strip_leading(files@[i]@, '/')
                    + "/**"@
            },
{
    let mut rules: Vec<String> = Vec::new();
    let n: usize = files.len();
    if n == 0 {
        rules.push(EMPTY_SELECTION_RULE.to_owned());
        assert(texts(rules@) =~= seq![EMPTY_SELECTION_RULE@]);
        return TransferFilter { include_rule: rules, delete_excluded: false };
    }
    let ghost wanted = include_rules(texts(files@));
    let mut i: usize = 0;
    while i < n
        invariant
            n == files@.len(),
            n > 0,
            i <= n,
            wanted == include_rules(texts(files@)),
            rules@.len() == 2 * i,
            forall|k: int| 0 <= k < 2 * i ==> (#[trigger] rules@[k])@ == wanted[k],
        decreases n - i,
    {
        let chars = to_chars(files[i].as_str());
        let clean = trim_start_matches(&chars, '/');
        let mut exact: Vec<char> = Vec::new();
        extend_str(&mut exact, "/");
        extend(&mut exact, &clean);
        let mut subtree: Vec<char> = Vec::new();
        extend(&mut subtree, &exact);
        extend_str(&mut subtree, "/**");
        assert(exact@ =~= exact_rule(files@[i as int]@));
        assert(subtree@ =~= subtree_rule(files@[i as int]@));
        assert(wanted[2 * i] == exact_rule(texts(files@)[(2 * i) / 2]));
        assert(wanted[2 * i + 1] == subtree_rule(texts(files@)[(2 * i + 1) / 2]));
        rules.push(from_chars(&exact));
        rules.push(from_chars(&subtree));
        i += 1;
    }
    assert(texts(rules@) =~= wanted);
    let filter = TransferFilter { include_rule: rules, delete_excluded: false };
    assert forall|j: int| 0 <= j < files@.len() implies {
        &&& #[trigger] filter@.include_rule[2 * j] == "/"@ + strip_leading(files@[j]@, '/')
        &&& filter@.include_rule[2 * j + 1] == "/"@ + strip_leading(files@[j]@, '/') + "/**"@
    } by {
        assert(wanted[2 * j] == exact_rule(texts(files@)[(2 * j) / 2]));
        assert(wanted[2 * j + 1] == subtree_rule(texts(files@)[(2 * j + 1) / 2]));
    }
    filter
}

/// The backup directory for `dst_path`, stamped `timestamp`: a sibling of the
/// destination. A destination without a parent directory, such as a
/// file-system root, has no place for one.
pub fn backup_path_at(dst_path: &str, timestamp: &str) -> (r: Result<String, ConfigError>)
    ensures
        match r {
            Ok(path) => backup_path(dst_path@, timestamp@) == Some(path@),
            Err(e) => e == ConfigError::NoParentDirectory && backup_path(dst_path@, timestamp@)
                is None,
        },
{
    let mut name: Vec<char> = Vec::new();
    extend_str(&mut name, BACKUP_PREFIX);
    extend_str(&mut name, timestamp);
    assert(name@ =~= BACKUP_PREFIX@ + timestamp@);
    let backup_name = from_chars(&name);
    match parent(dst_path) {
        Some(dir) => Ok(join(dir.as_str(), backup_name.as_str())),
        None => Err(ConfigError::NoParentDirectory),
    }
}

impl RequestBody {
    /// The request as the JSON object that is posted to the backend.
    pub fn to_json(&self) -> (json: String)
        ensures
            json@ == body_json(self@),
    {
        let mut out: Vec<char> = Vec::new();
        extend_str(&mut out, "{\"_async\":true,\"srcFs\":");
        extend_str(&mut out, quote(self.src_fs.as_str()).as_str());
        extend_str(&mut out, ",\"dstFs\":");
        extend_str(&mut out, quote(self.dst_fs.as_str()).as_str());
        let ghost head = out@;
        match &self.backup_dir {
            Some(dir) => {
                extend_str(&mut out, ",\"_config\":{\"BackupDir\":");
                extend_str(&mut out, quote(dir.as_str()).as_str());
                if self.dry_run {
                    extend_str(&mut out, ",\"DryRun\":true}");
                } else {
                    extend_str(&mut out, "}");
                }
            },
            None => {
                if self.dry_run {
                    extend_str(&mut out, ",\"_config\":{\"DryRun\":true}");
                }
            },
        }
        assert(out@ =~= head + config_json(self@.backup_dir, self@.dry_run));
        let ghost middle = out@;
        match &self.filter {
            Some(f) => {
                extend_str(&mut out, ",\"_filter\":{\"IncludeRule\":[");
                let ghost open = out@;
                let ghost rules = texts(f.include_rule@);
                let mut i: usize = 0;
                assert(rules.take(0) =~= Seq::<Seq<char>>::empty());
                while i < f.include_rule.len()
                    invariant
                        i <= f.include_rule@.len(),
                        rules == texts(f.include_rule@),
                        out@ == open + json_strings(rules.take(i as int)),
                    decreases f.include_rule.len() - i,
                {
                    let ghost so_far = json_strings(rules.take(i as int));
                    if i > 0 {
                        extend_str(&mut out, ",");
                    }
                    extend_str(&mut out, quote(f.include_rule[i].as_str()).as_str());
                    proof {
                        assert(rules.take(i + 1).drop_last() =~= rules.take(i as int));
                        assert(rules.take(i + 1).last() == f.include_rule@[i as int]@);
                        assert(rules.take(i + 1)[0] == rules[0]);
                        assert(out@ =~= open + json_strings(rules.take(i + 1)));
                    }
                    i += 1;
                }
                assert(rules.take(rules.len() as int) =~= rules);
                if f.delete_excluded {
                    extend_str(&mut out, "],\"DeleteExcluded\":true}");
                } else {
                    extend_str(&mut out, "]}");
                }
                assert(out@ =~= middle + filter_json(self@.filter));
            },
            None => {},
        }
        extend_str(&mut out, "}");
        assert(out@ =~= body_json(self@));
        from_chars(&out)
    }
}

/// Every rule of a selection that selects something begins with `/`, so
/// none of them is the rule of the selection that selects nothing.
pub proof fn lemma_selection_rules_begin_with_slash(files: Seq<Seq<char>>, k: int)
    requires
        files.len() > 0,
        0 <= k < 2 * files.len(),
    ensures
        include_rules(files)[k].len() > 0,
        include_rules(files)[k][0] == '/',
        include_rules(files)[k] != EMPTY_SELECTION_RULE@,
{
    reveal_strlit("/");
    reveal_strlit("non_existent_file_marker");
}

/// Selecting nothing is not the same as not selecting: a request without a
/// selection has no filter and transfers everything, while a request with an
/// empty selection has a filter, whose only rule is the one that admits no
/// file.
pub proof fn lemma_empty_selection_restricts(req: TransferRequest, paths: PathsModel)
    requires
        req.selected_files == Some(Seq::<Seq<char>>::empty()),
    ensures
        request_body(req, paths).filter matches Some(f) && f.include_rule
            == seq![EMPTY_SELECTION_RULE@],
        request_body(TransferRequest { selected_files: None, ..req }, paths).filter is None,
{
}

/// A selected path and the same path with slashes before it give the same
/// rules: leading slashes do not count.
pub proof fn lemma_leading_slashes_do_not_count(file: Seq<char>)
    ensures
        exact_rule(seq!['/'] + file) == exact_rule(file),
        subtree_rule(seq!['/'] + file) == subtree_rule(file),
{
    assert((seq!['/'] + file).drop_first() =~= file);
}

/// The archive folder's name is a single ordinary path component.
pub proof fn lemma_archive_folder_is_plain()
    ensures
        is_plain_component(ARCHIVE_FOLDER@),
{
    reveal_strlit("Unofficial-Neuro-Karaoke-Archive");
}

impl DownloadConfig {
    #[verifier::type_invariant]
    spec fn names_a_remote(self) -> bool {
        self.remote_config@.len() > 0
    }

    /// Accepts a request that names a remote; one without a remote, or with
    /// an empty name for it, is refused before anything is sent.
    pub fn new(
        source: String,
        destination: String,
        remote_config: Option<String>,
        sync_mode: bool,
        create_subfolder: bool,
        selected_files: Option<Vec<String>>,
        create_backup: bool,
        delete_excluded: bool,
    ) -> (r: Result<Self, ConfigError>)
        ensures
            match r {
                Ok(config) => opt_text(remote_config) is Some && config@ == (TransferRequest {
                    source: source@,
                    destination: destination@,
                    remote_config: opt_text(remote_config).unwrap(),
                    sync_mode,
                    create_subfolder,
                    selected_files: match selected_files {
                        Some(files) => Some(texts(files@)),
                        None => None,
                    },
                    create_backup,
                    delete_excluded,
                }) && config@.remote_config.len() > 0,
                Err(e) => e == ConfigError::MissingIdentity && (remote_config is None || opt_text(
                    remote_config,
                ).unwrap().len() == 0),
            },
    {
        let remote_config = match remote_config {
            Some(name) => name,
            None => {
                return Err(ConfigError::MissingIdentity);
            },
        };
        if remote_config.as_str().unicode_len() == 0 {
            return Err(ConfigError::MissingIdentity);
        }
        Ok(
            Self {
                source,
                destination,
                remote_config,
                sync_mode,
                create_subfolder,
                selected_files,
                create_backup,
                delete_excluded,
            },
        )
    }

    /// The name of the remote; never empty.
    pub fn remote_config(&self) -> (name: &str)
        ensures
            name@ == self@.remote_config,
            name@.len() > 0,
    {
        proof {
            use_type_invariant(self);
        }
        self.remote_config.as_str()
    }

    /// Copy or sync, as the request asked.
    pub fn mode(&self) -> (m: TransferMode)
        ensures
            m == self@.mode(),
    {
        if self.sync_mode {
            TransferMode::Sync { delete_excluded: self.delete_excluded }
        } else {
            TransferMode::Copy
        }
    }

    /// Where the files go. Building the path again from the result gives the
    /// result: the archive folder is never nested in itself. (A destination
    /// that begins with two separators is left out of that promise; see
    /// `begins_with_two_separators`.)
    pub fn build_destination_path(&self) -> (path: String)
        ensures
            path@ == destination_path(self@.destination, self@.create_subfolder),
            !begins_with_two_separators(self@.destination) ==> destination_path(
                path@,
                self@.create_subfolder,
            ) == path@,
    {
        if self.create_subfolder {
            let already_has_subfolder = match file_name(self.destination.as_str()) {
                Some(name) => str_eq(name.as_str(), ARCHIVE_FOLDER),
                None => false,
            };
            if !already_has_subfolder {
                proof {
                    lemma_archive_folder_is_plain();
                }
                return join(self.destination.as_str(), ARCHIVE_FOLDER);
            }
        }
        self.destination.clone()
    }

    /// The backup directory for `dst_path`, stamped with the local time of
    /// the call.
    pub fn build_backup_path(&self, dst_path: &str) -> (r: Result<String, ConfigError>)
        ensures
            r is Err <==> path_parent(dst_path@) is None,
            r is Err ==> r == Err::<String, ConfigError>(ConfigError::NoParentDirectory),
            r is Ok ==> exists|timestamp: Seq<char>|
                backup_path(dst_path@, timestamp) == Some(r.unwrap()@),
    {
        let timestamp = local_time_text(TIMESTAMP_FORMAT);
        backup_path_at(dst_path, timestamp.as_str())
    }

    /// The source and destination as the backend addresses them, and the
    /// backup directory where one was asked for, stamped `timestamp`.
    pub fn build_filesystem_paths_at(&self, timestamp: &str) -> (r: Result<
        FilesystemPaths,
        ConfigError,
    >)
        ensures
            paths_outcome(r) == filesystem_paths(self@, timestamp@),
    {
        let root_id = parse_gdrive_id(self.source.as_str());
        let mut src: Vec<char> = Vec::new();
        extend_str(&mut src, self.remote_config.as_str());
        extend_str(&mut src, ",root_folder_id=");
        extend_str(&mut src, root_id.as_str());
        extend_str(&mut src, ":");
        assert(src@ =~= source_fs(self@.remote_config, self@.source));
        let src_fs = from_chars(&src);
        let dst_fs = self.build_destination_path();
        let backup_path = if self.create_backup {
            match backup_path_at(dst_fs.as_str(), timestamp) {
                Ok(path) => Some(path),
                Err(e) => {
                    return Err(e);
                },
            }
        } else {
            None
        };
        Ok(FilesystemPaths { src_fs, dst_fs, backup_path })
    }

    /// The source and destination as the backend addresses them, and the
    /// backup directory where one was asked for, stamped with the local time
    /// of the call. Without a backup the clock is not read.
    pub fn build_filesystem_paths(&self) -> (r: Result<FilesystemPaths, ConfigError>)
        ensures
            exists|timestamp: Seq<char>| paths_outcome(r) == filesystem_paths(self@, timestamp),
            !self@.create_backup ==> paths_outcome(r) == filesystem_paths(self@, Seq::empty()),
            r is Err <==> self@.create_backup && path_parent(
                destination_path(self@.destination, self@.create_subfolder),
            ) is None,
    {
        if self.create_backup {
            let timestamp = local_time_text(TIMESTAMP_FORMAT);
            self.build_filesystem_paths_at(timestamp.as_str())
        } else {
            self.build_filesystem_paths_at("")
        }
    }

    /// The request for `paths`, as a sync or as a copy, as a dry run or not.
    fn body_for(&self, paths: &FilesystemPaths, sync_mode: bool, dry_run: bool) -> (body:
        RequestBody)
        ensures
            body@ == (BodyModel {
                dry_run,
                ..request_body(TransferRequest { sync_mode, ..self@ }, paths@)
            }),
    {
        let backup_dir = match &paths.backup_path {
            Some(path) => Some(path.clone()),
            None => None,
        };
        let filter = match &self.selected_files {
            Some(files) => {
                let mut filter = build_file_filter(files.as_slice());
                filter.delete_excluded = sync_mode && self.delete_excluded;
                Some(filter)
            },
            None => None,
        };
        RequestBody {
            src_fs: paths.src_fs.clone(),
            dst_fs: paths.dst_fs.clone(),
            backup_dir,
            dry_run,
            filter,
        }
    }

    /// The request that goes to the backend for a transfer between `paths`.
    pub fn build_request_body(&self, paths: &FilesystemPaths) -> (body: RequestBody)
        ensures
            body@ == request_body(self@, paths@),
    {
        self.body_for(paths, self.sync_mode, false)
    }

    /// The request that goes to the backend for a preview of a sync between
    /// `paths`. It is the request of a sync even where `self` asks for a copy.
    pub fn build_dry_run_body(&self, paths: &FilesystemPaths) -> (body: RequestBody)
        ensures
            body@ == dry_run_request_body(self@, paths@),
    {
        self.body_for(paths, true, true)
    }
}

} // verus!
