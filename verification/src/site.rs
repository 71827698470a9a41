use std::marker::PhantomData;
use std::path::PathBuf;
use vstd::prelude::*;

use crate::db::{dump_file, dump_step, Credentials, CredentialsView, DumpStage};
use crate::error::{AppError, AppResult};
use crate::files::{archive_command, archive_file, archive_step, ArchiveStage};
use crate::pipe::{backup_dir, Action, ActionView, ArgumentView, Output};

pub mod laravel;
pub mod wordpress;

verus! {

/// Makes `std::path::PathBuf` known as a type whose values are carried
/// along and never looked into.
#[verifier::external_type_specification]
#[verifier::external_body]
pub struct ExPathBuf(std::path::PathBuf);

/// The application frameworks that can be told apart.
#[derive(Debug, Clone, Copy, PartialEq, Eq, Structural)]
pub enum SiteType {
    Wordpress,
    Laravel,
    Django,
    Rails,
    Express,
    Flask,
    Drupal,
    Magento,
}

/// What a list of relative paths says of a site directory: the set of the
/// paths that exist in it.
pub open spec fn listing(entries: Seq<String>) -> Set<Seq<char>> {
    Set::new(|path: Seq<char>| exists|i: int| 0 <= i < entries.len() && entries[i]@ == path)
}

/// The fingerprint of a site type: the paths, relative to the site root,
/// that must all exist for a directory to count as a site of that type.
pub open spec fn fingerprint(kind: SiteType, dir: Set<Seq<char>>) -> bool {
    match kind {
        SiteType::Laravel => {
            &&& dir.contains("artisan"@)
            &&& dir.contains("composer.json"@)
            &&& dir.contains("config/app.php"@)
        },
        SiteType::Wordpress => {
            &&& dir.contains("wp-config.php"@)
            &&& dir.contains("wp-load.php"@)
            &&& dir.contains("wp-content"@)
        },
        SiteType::Rails => {
            &&& dir.contains("config.ru"@)
            &&& dir.contains("Gemfile"@)
            &&& dir.contains("bin/rails"@)
        },
        SiteType::Django => {
            &&& dir.contains("manage.py"@)
            &&& (dir.contains("requirements.txt"@) || dir.contains("Pipfile"@))
        },
        SiteType::Express => {
            &&& (dir.contains("app.js"@) || dir.contains("server.js"@))
            &&& dir.contains("package.json"@)
        },
        SiteType::Flask => {
            &&& (dir.contains("app.py"@) || dir.contains("main.py"@))
            &&& dir.contains("requirements.txt"@)
        },
        SiteType::Drupal => {
            &&& dir.contains("index.php"@)
            &&& dir.contains("core/includes/bootstrap.inc"@)
            &&& dir.contains("sites/default/settings.php"@)
        },
        SiteType::Magento => {
            &&& dir.contains("index.php"@)
            &&& dir.contains("app/etc/env.php"@)
            &&& dir.contains("app/Mage.php"@)
        },
    }
}

/// The place of a site type in the order in which fingerprints are tried;
/// the lower rank wins where several fingerprints match.
pub open spec fn rank(kind: SiteType) -> nat {
    match kind {
        SiteType::Laravel => 0,
        SiteType::Wordpress => 1,
        SiteType::Rails => 2,
        SiteType::Django => 3,
        SiteType::Express => 4,
        SiteType::Flask => 5,
        SiteType::Drupal => 6,
        SiteType::Magento => 7,
    }
}

/// The type of the site in `dir`: the matching type of lowest rank, if any
/// fingerprint matches.
pub open spec fn detected(dir: Set<Seq<char>>) -> Option<SiteType> {
    if exists|kind: SiteType| fingerprint(kind, dir) {
        Some(
            choose|kind: SiteType|
                fingerprint(kind, dir) && forall|other: SiteType| #[trigger]
                    fingerprint(other, dir) ==> rank(kind) <= rank(other),
        )
    } else {
        None
    }
}

/// Every path that some fingerprint mentions, each once. Whoever inspects
/// the directory needs to look for these and no others.
pub open spec fn fingerprint_list() -> Seq<Seq<char>> {
    seq![
        "artisan"@,
        "composer.json"@,
        "config/app.php"@,
        "wp-config.php"@,
        "wp-load.php"@,
        "wp-content"@,
        "config.ru"@,
        "Gemfile"@,
        "bin/rails"@,
        "manage.py"@,
        "requirements.txt"@,
        "Pipfile"@,
        "app.js"@,
        "server.js"@,
        "package.json"@,
        "app.py"@,
        "main.py"@,
        "index.php"@,
        "core/includes/bootstrap.inc"@,
        "sites/default/settings.php"@,
        "app/etc/env.php"@,
        "app/Mage.php"@,
    ]
}

/// The relative paths to look for in a site directory before calling
/// [`detect_site_type`].
pub fn fingerprint_paths() -> (paths: Vec<String>)
    ensures
        paths@.map_values(|p: String| p@) == fingerprint_list(),
{
    let mut paths: Vec<String> = Vec::new();
    paths.push("artisan".to_owned());
    paths.push("composer.json".to_owned());
    paths.push("config/app.php".to_owned());
    paths.push("wp-config.php".to_owned());
    paths.push("wp-load.php".to_owned());
    paths.push("wp-content".to_owned());
    paths.push("config.ru".to_owned());
    paths.push("Gemfile".to_owned());
    paths.push("bin/rails".to_owned());
    paths.push("manage.py".to_owned());
    paths.push("requirements.txt".to_owned());
    paths.push("Pipfile".to_owned());
    paths.push("app.js".to_owned());
    paths.push("server.js".to_owned());
    paths.push("package.json".to_owned());
    paths.push("app.py".to_owned());
    paths.push("main.py".to_owned());
    paths.push("index.php".to_owned());
    paths.push("core/includes/bootstrap.inc".to_owned());
    paths.push("sites/default/settings.php".to_owned());
    paths.push("app/etc/env.php".to_owned());
    paths.push("app/Mage.php".to_owned());
    assert(paths@.map_values(|p: String| p@) =~= fingerprint_list());
    paths
}

/// Tells whether `path` is among `entries`.
fn present(entries: &Vec<String>, path: &str) -> (found: bool)
    ensures
        found == listing(entries@).contains(path@),
{
    let wanted = path.to_owned();
    let mut i: usize = 0;
    while i < entries.len()
        invariant
            i <= entries.len(),
            wanted@ == path@,
            forall|j: int| 0 <= j < i ==> entries[j]@ != path@,
        decreases entries.len() - i,
    {
        if entries[i] == wanted {
            return true;
        }
        i += 1;
    }
    false
}

/// Classifies a site directory from the relative paths that exist in it.
///
/// The fingerprints are tried in the order Laravel, Wordpress, Rails,
/// Django, Express, Flask, Drupal, Magento, and the first that matches
/// decides. Where none matches the site is unknown.
pub fn detect_site_type(entries: &Vec<String>) -> (r: AppResult<SiteType>)
    ensures
        match detected(listing(entries@)) {
            Some(kind) => r matches Ok(found) && found == kind,
            None => r matches Err(e) && e is UnknownSite,
        },
{
    let ghost dir = listing(entries@);
    // Laravel
    if present(entries, "artisan") && present(entries, "composer.json") && present(
        entries,
        "config/app.php",
    ) {
        proof {
            lemma_lowest_is_detected(dir, SiteType::Laravel);
        }
        return Ok(SiteType::Laravel);
    }
    // Wordpress
    if present(entries, "wp-config.php") && present(entries, "wp-load.php") && present(
        entries,
        "wp-content",
    ) {
        proof {
            lemma_lowest_is_detected(dir, SiteType::Wordpress);
        }
        return Ok(SiteType::Wordpress);
    }
    // Rails
    if present(entries, "config.ru") && present(entries, "Gemfile") && present(
        entries,
        "bin/rails",
    ) {
        proof {
            lemma_lowest_is_detected(dir, SiteType::Rails);
        }
        return Ok(SiteType::Rails);
    }
    // Django
    if present(entries, "manage.py") && (present(entries, "requirements.txt") || present(
        entries,
        "Pipfile",
    )) {
        proof {
            lemma_lowest_is_detected(dir, SiteType::Django);
        }
        return Ok(SiteType::Django);
    }
    // Express (Node.js)
    if (present(entries, "app.js") || present(entries, "server.js")) && present(
        entries,
        "package.json",
    ) {
        proof {
            lemma_lowest_is_detected(dir, SiteType::Express);
        }
        return Ok(SiteType::Express);
    }
    // Flask
    if (present(entries, "app.py") || present(entries, "main.py")) && present(
        entries,
        "requirements.txt",
    ) {
        proof {
            lemma_lowest_is_detected(dir, SiteType::Flask);
        }
        return Ok(SiteType::Flask);
    }
    // Drupal
    if present(entries, "index.php") && present(entries, "core/includes/bootstrap.inc")
        && present(entries, "sites/default/settings.php") {
        proof {
            lemma_lowest_is_detected(dir, SiteType::Drupal);
        }
        return Ok(SiteType::Drupal);
    }
    // Magento
    if present(entries, "index.php") && present(entries, "app/etc/env.php") && present(
        entries,
        "app/Mage.php",
    ) {
        proof {
            lemma_lowest_is_detected(dir, SiteType::Magento);
        }
        return Ok(SiteType::Magento);
    }
    Err(AppError::UnknownSite)
}

/// Two site types of the same rank are the same type.
pub proof fn lemma_rank_is_injective(a: SiteType, b: SiteType)
    requires
        rank(a) == rank(b),
    ensures
        a == b,
{
}

/// A matching type below which nothing matches is the detected type.
pub proof fn lemma_lowest_is_detected(dir: Set<Seq<char>>, kind: SiteType)
    requires
        fingerprint(kind, dir),
        forall|other: SiteType| rank(other) < rank(kind) ==> !fingerprint(other, dir),
    ensures
        detected(dir) == Some(kind),
{
    let picked = choose|k: SiteType|
        fingerprint(k, dir) && forall|other: SiteType| #[trigger]
            fingerprint(other, dir) ==> rank(k) <= rank(other);
    assert(fingerprint(kind, dir) && forall|other: SiteType| #[trigger]
        fingerprint(other, dir) ==> rank(kind) <= rank(other));
    assert(rank(picked) <= rank(kind));
    assert(rank(kind) <= rank(picked));
    lemma_rank_is_injective(picked, kind);
}

/// The detected type matches, and no type of a lower rank does; nothing is
/// detected exactly where nothing matches.
pub proof fn lemma_detected_is_lowest(dir: Set<Seq<char>>)
    ensures
        detected(dir) matches Some(kind) ==> fingerprint(kind, dir) && forall|other: SiteType|
            #[trigger] fingerprint(other, dir) ==> rank(kind) <= rank(other),
        detected(dir) is None <==> forall|other: SiteType| !fingerprint(other, dir),
{
}

/// A directory that matches the fingerprint of one type and of no other is
/// a site of that type.
pub proof fn lemma_single_match(dir: Set<Seq<char>>, kind: SiteType)
    requires
        fingerprint(kind, dir),
        forall|other: SiteType| other != kind ==> !fingerprint(other, dir),
    ensures
        detected(dir) == Some(kind),
{
    lemma_lowest_is_detected(dir, kind);
}

/// A directory that matches no fingerprint is no known site.
pub proof fn lemma_no_match(dir: Set<Seq<char>>)
    requires
        forall|other: SiteType| !fingerprint(other, dir),
    ensures
        detected(dir) is None,
{
}

/// Of two types whose fingerprints a directory matches, the one of higher
/// rank is never detected; where no third type matches, the one of lower
/// rank is.
pub proof fn lemma_two_matches(dir: Set<Seq<char>>, first: SiteType, second: SiteType)
    requires
        fingerprint(first, dir),
        fingerprint(second, dir),
        rank(first) < rank(second),
    ensures
        detected(dir) != Some(second),
        (forall|other: SiteType| rank(other) < rank(first) ==> !fingerprint(other, dir))
            ==> detected(dir) == Some(first),
{
    lemma_detected_is_lowest(dir);
    if forall|other: SiteType| rank(other) < rank(first) ==> !fingerprint(other, dir) {
        lemma_lowest_is_detected(dir, first);
    }
}

/// Fingerprints read nothing but the listed paths: two directories that
/// agree on those match the same fingerprints and are detected alike.
pub proof fn lemma_fingerprints_read_listed_paths(a: Set<Seq<char>>, b: Set<Seq<char>>)
    requires
        forall|i: int|
            0 <= i < fingerprint_list().len() ==> a.contains(#[trigger] fingerprint_list()[i])
                == b.contains(fingerprint_list()[i]),
    ensures
        forall|kind: SiteType| fingerprint(kind, a) == fingerprint(kind, b),
        detected(a) == detected(b),
{
    let list = fingerprint_list();
    assert(a.contains(list[0]) == b.contains(list[0]));
    assert(a.contains(list[1]) == b.contains(list[1]));
    assert(a.contains(list[2]) == b.contains(list[2]));
    assert(a.contains(list[3]) == b.contains(list[3]));
    assert(a.contains(list[4]) == b.contains(list[4]));
    assert(a.contains(list[5]) == b.contains(list[5]));
    assert(a.contains(list[6]) == b.contains(list[6]));
    assert(a.contains(list[7]) == b.contains(list[7]));
    assert(a.contains(list[8]) == b.contains(list[8]));
    assert(a.contains(list[9]) == b.contains(list[9]));
    assert(a.contains(list[10]) == b.contains(list[10]));
    assert(a.contains(list[11]) == b.contains(list[11]));
    assert(a.contains(list[12]) == b.contains(list[12]));
    assert(a.contains(list[13]) == b.contains(list[13]));
    assert(a.contains(list[14]) == b.contains(list[14]));
    assert(a.contains(list[15]) == b.contains(list[15]));
    assert(a.contains(list[16]) == b.contains(list[16]));
    assert(a.contains(list[17]) == b.contains(list[17]));
    assert(a.contains(list[18]) == b.contains(list[18]));
    assert(a.contains(list[19]) == b.contains(list[19]));
    assert(a.contains(list[20]) == b.contains(list[20]));
    assert(a.contains(list[21]) == b.contains(list[21]));
    assert forall|kind: SiteType| fingerprint(kind, a) == fingerprint(kind, b) by {}
    assert(detected(a) == detected(b)) by {
        if exists|kind: SiteType| fingerprint(kind, a) {
            let kind = detected(a).unwrap();
            lemma_detected_is_lowest(a);
            assert(fingerprint(kind, b));
            assert forall|other: SiteType| rank(other) < rank(kind) implies !fingerprint(
                other,
                b,
            ) by {
                assert(fingerprint(other, a) == fingerprint(other, b));
            }
            lemma_lowest_is_detected(b, kind);
        } else {
            assert forall|other: SiteType| !fingerprint(other, b) by {
                assert(fingerprint(other, a) == fingerprint(other, b));
            }
        }
    }
}

/// A mark in the type of a [`Site`]: whether one stage of the backup is
/// behind the site.
pub trait Marker {
    spec fn reached() -> bool;
}

pub struct NotDetected;

pub struct Detected;

pub struct NoCredentials;

pub struct GotCredentials;

pub struct DbBackedUp;

pub struct DbNotBackedUp;

pub struct FilesBackedUp;

pub struct FilesNotBackedUp;

impl Marker for NotDetected {
    open spec fn reached() -> bool {
        false
    }
}

impl Marker for Detected {
    open spec fn reached() -> bool {
        true
    }
}

impl Marker for NoCredentials {
    open spec fn reached() -> bool {
        false
    }
}

impl Marker for GotCredentials {
    open spec fn reached() -> bool {
        true
    }
}

impl Marker for DbNotBackedUp {
    open spec fn reached() -> bool {
        false
    }
}

impl Marker for DbBackedUp {
    open spec fn reached() -> bool {
        true
    }
}

impl Marker for FilesNotBackedUp {
    open spec fn reached() -> bool {
        false
    }
}

impl Marker for FilesBackedUp {
    open spec fn reached() -> bool {
        true
    }
}

/// A site on its way through the backup. The four marks in its type say
/// which stages are behind it: detection, credentials, database backup and
/// file backup. Each stage is a method of the sites that are ready for it,
/// so that a stage out of order does not compile.
pub struct Site<
    DetectionState: Marker,
    CredentialsState: Marker,
    DbBackupState: Marker,
    FileBackupState: Marker,
> {
    detect_state: PhantomData<DetectionState>,
    credentials_state: PhantomData<CredentialsState>,
    db_backup_state: PhantomData<DbBackupState>,
    files_backup_state: PhantomData<FileBackupState>,
    path: PathBuf,
    temp: PathBuf,
    site_type: Option<SiteType>,
    credentials: Option<Credentials>,
    dump_stage: DumpStage,
    archive_stage: ArchiveStage,
}

/// What a site holds.
pub struct SiteView {
    /// The site directory.
    pub path: PathBuf,
    /// The output root, under which the archives are written.
    pub temp: PathBuf,
    pub site_type: Option<SiteType>,
    pub credentials: Option<CredentialsView>,
    /// The step of the database backup whose outcome is awaited.
    pub dump_stage: DumpStage,
    /// The step of the file backup whose outcome is awaited.
    pub archive_stage: ArchiveStage,
}

/// Where a stage of several steps stands after one of them.
pub enum Progress<Before, After> {
    /// The stage is not over: `action` is to be carried out and its outcome
    /// reported to the stage again, on `site`.
    Pending { site: Before, action: Action },
    /// The stage is over and behind the site.
    Finished(After),
}

/// The stages in the order that their results allow: credentials are read
/// for a detected type, and both backups need the credentials. The two
/// backups do not need each other.
pub open spec fn in_order(detected: bool, credentials: bool, database: bool, files: bool) -> bool {
    &&& credentials ==> detected
    &&& database ==> credentials
    &&& files ==> credentials
}

/// The credentials that the text of the configuration file of a site of the
/// type `kind` holds. Only a Laravel and a WordPress site have such a file;
/// `None` for the text stands for a file that could not be read.
pub open spec fn credentials_for(kind: SiteType, contents: Option<Seq<char>>) -> Option<
    CredentialsView,
> {
    match (kind, contents) {
        (SiteType::Laravel, Some(text)) => laravel::credentials_in(text),
        (SiteType::Wordpress, Some(text)) => wordpress::credentials_in(text),
        _ => None,
    }
}

/// The text behind a reference to it.
pub open spec fn text_of(contents: Option<&str>) -> Option<Seq<char>> {
    match contents {
        Some(text) => Some(text@),
        None => None,
    }
}

impl<D: Marker, C: Marker, B: Marker, F: Marker> View for Site<D, C, B, F> {
    type V = SiteView;

    closed spec fn view(&self) -> SiteView {
        SiteView {
            path: self.path,
            temp: self.temp,
            site_type: self.site_type,
            credentials: match self.credentials {
                Some(credentials) => Some(credentials@),
                None => None,
            },
            dump_stage: self.dump_stage,
            archive_stage: self.archive_stage,
        }
    }
}

impl<D: Marker, C: Marker, B: Marker, F: Marker> Site<D, C, B, F> {
    /// What holds of every site: it has a type exactly where detection is
    /// behind it, credentials exactly where those were read, its marks are
    /// in order, and a backup that is behind it went through its last step.
    #[verifier::type_invariant]
    pub closed spec fn wf(self) -> bool {
        &&& D::reached() <==> self.site_type is Some
        &&& C::reached() <==> self.credentials is Some
        &&& in_order(D::reached(), C::reached(), B::reached(), F::reached())
        &&& B::reached() ==> self.dump_stage == DumpStage::Writing
        &&& F::reached() ==> self.archive_stage == ArchiveStage::Archiving
    }

    /// The site directory.
    pub fn path(&self) -> (path: &PathBuf)
        ensures
            *path == self@.path,
    {
        &self.path
    }

    /// The output root: the directory under which the archives are written.
    pub fn temp(&self) -> (temp: &PathBuf)
        ensures
            *temp == self@.temp,
    {
        &self.temp
    }
}

impl Site<NotDetected, NoCredentials, DbNotBackedUp, FilesNotBackedUp> {
    /// A site of which nothing is known but where it lies and where its
    /// archives go.
    pub fn new(path: PathBuf, temp: PathBuf) -> (site: Site<
        NotDetected,
        NoCredentials,
        DbNotBackedUp,
        FilesNotBackedUp,
    >)
        ensures
            site.wf(),
            site@ == (SiteView {
                path,
                temp,
                site_type: None,
                credentials: None,
                dump_stage: DumpStage::Start,
                archive_stage: ArchiveStage::Start,
            }),
    {
        Site {
            detect_state: PhantomData,
            credentials_state: PhantomData,
            db_backup_state: PhantomData,
            files_backup_state: PhantomData,
            path,
            temp,
            site_type: None,
            credentials: None,
            dump_stage: DumpStage::Start,
            archive_stage: ArchiveStage::Start,
        }
    }
}

impl<U: Marker> Site<NotDetected, U, DbNotBackedUp, FilesNotBackedUp> {
    /// Classifies the site from the relative paths that exist in its
    /// directory, of which `entries` holds at least those among
    /// [`fingerprint_paths`]. A site whose directory matches no fingerprint
    /// goes no further.
    pub fn detect(self, entries: &Vec<String>) -> (r: AppResult<
        Site<Detected, U, DbNotBackedUp, FilesNotBackedUp>,
    >)
        ensures
            match detected(listing(entries@)) {
                Some(kind) => r matches Ok(site) && site.wf() && site@ == (SiteView {
                    site_type: Some(kind),
                    ..self@
                }),
                None => r matches Err(e) && e is UnknownSite,
            },
    {
        proof {
            use_type_invariant(&self);
        }
        let site_type = detect_site_type(entries)?;
        Ok(
            Site {
                detect_state: PhantomData,
                credentials_state: PhantomData,
                db_backup_state: PhantomData,
                files_backup_state: PhantomData,
                path: self.path,
                temp: self.temp,
                site_type: Some(site_type),
                credentials: self.credentials,
                dump_stage: self.dump_stage,
                archive_stage: self.archive_stage,
            },
        )
    }
}

impl<C: Marker, B: Marker, F: Marker> Site<Detected, C, B, F> {
    /// The type that was detected.
    pub fn site_type(&self) -> (kind: SiteType)
        ensures
            self@.site_type == Some(kind),
    {
        proof {
            use_type_invariant(self);
        }
        match self.site_type {
            Some(kind) => kind,
            None => vstd::pervasive::unreached(),
        }
    }
}

impl<W: Marker> Site<Detected, NoCredentials, DbNotBackedUp, W> {
    /// The name, under the site directory, of the file whose text
    /// [`Site::get_credentials`] reads; none for a type of site whose
    /// credentials cannot be read.
    pub fn config_file(&self) -> (name: Option<&'static str>)
        ensures
            match self@.site_type {
                Some(SiteType::Laravel) => name matches Some(file) && file@ == ".env"@,
                Some(SiteType::Wordpress) => name matches Some(file) && file@ == "wp-config.php"@,
                _ => name is None,
            },
    {
        match self.site_type {
            Some(SiteType::Laravel) => Some(laravel::config_file()),
            Some(SiteType::Wordpress) => Some(wordpress::config_file()),
            _ => None,
        }
    }

    /// Reads the database credentials from the text of the configuration
    /// file of the site; `None` stands for a file that could not be read,
    /// or that the type of the site does not have. A site without
    /// credentials goes no further: for a type other than Laravel and
    /// WordPress there is no way on.
    pub fn get_credentials(self, contents: Option<&str>) -> (r: AppResult<
        Site<Detected, GotCredentials, DbNotBackedUp, W>,
    >)
        ensures
            self@.site_type is Some,
            match credentials_for(self@.site_type.unwrap(), text_of(contents)) {
                Some(found) => r matches Ok(site) && site.wf() && site@ == (SiteView {
                    credentials: Some(found),
                    ..self@
                }),
                None => r matches Err(e) && e is MissingDatabaseCredentials,
            },
    {
        proof {
            use_type_invariant(&self);
        }
        let creds = match self.site_type {
            Some(SiteType::Laravel) => laravel::get_credentials(contents),
            Some(SiteType::Wordpress) => wordpress::get_credentials(contents),
            _ => Err(AppError::MissingDatabaseCredentials),
        }?;
        Ok(
            Site {
                detect_state: PhantomData,
                credentials_state: PhantomData,
                db_backup_state: PhantomData,
                files_backup_state: PhantomData,
                path: self.path,
                temp: self.temp,
                site_type: self.site_type,
                credentials: Some(creds),
                dump_stage: self.dump_stage,
                archive_stage: self.archive_stage,
            },
        )
    }
}

impl<B: Marker, F: Marker> Site<Detected, GotCredentials, B, F> {
    /// The credentials that were read.
    pub fn credentials(&self) -> (credentials: &Credentials)
        ensures
            self@.credentials == Some(credentials@),
    {
        proof {
            use_type_invariant(self);
        }
        match &self.credentials {
            Some(credentials) => credentials,
            None => vstd::pervasive::unreached(),
        }
    }
}

impl<W: Marker> Site<Detected, GotCredentials, DbNotBackedUp, W> {
    /// Takes the database backup one step further, as [`crate::db::backup`]
    /// does with the credentials of the site.
    ///
    /// The first report is one of an outcome that went through and produced
    /// nothing. The site keeps track of the step, so that none can be left
    /// out: the caller carries out the action it gets back and reports how
    /// that ended, on the site it got back. When the last step went
    /// through, the database backup is behind the site.
    pub fn db_backup(self, outcome: Result<Output, std::io::Error>) -> (r: AppResult<
        Progress<Self, Site<Detected, GotCredentials, DbBackedUp, W>>,
    >)
        ensures
            self@.credentials is Some,
            outcome matches Err(cause) ==> r matches Err(AppError::IoError(kept)) && kept == cause,
            outcome matches Ok(output) ==> (if output.success {
                match dump_step(self@.credentials.unwrap(), self@.dump_stage, output.stdout@) {
                    Some((next, wanted)) => r matches Ok(Progress::Pending { site, action })
                        && site.wf() && site@ == (SiteView { dump_stage: next, ..self@ })
                        && action@ == wanted,
                    None => r matches Ok(Progress::Finished(site)) && site.wf() && site@ == self@,
                }
            } else {
                r matches Err(AppError::IoError(_))
            }),
    {
        proof {
            use_type_invariant(&self);
        }
        match crate::db::backup(self.credentials(), self.dump_stage, outcome)? {
            Some((stage, action)) => Ok(
                Progress::Pending {
                    site: Site {
                        detect_state: PhantomData,
                        credentials_state: PhantomData,
                        db_backup_state: PhantomData,
                        files_backup_state: PhantomData,
                        path: self.path,
                        temp: self.temp,
                        site_type: self.site_type,
                        credentials: self.credentials,
                        dump_stage: stage,
                        archive_stage: self.archive_stage,
                    },
                    action,
                },
            ),
            None => Ok(
                Progress::Finished(
                    Site {
                        detect_state: PhantomData,
                        credentials_state: PhantomData,
                        db_backup_state: PhantomData,
                        files_backup_state: PhantomData,
                        path: self.path,
                        temp: self.temp,
                        site_type: self.site_type,
                        credentials: self.credentials,
                        dump_stage: self.dump_stage,
                        archive_stage: self.archive_stage,
                    },
                ),
            ),
        }
    }
}

impl<V: Marker> Site<Detected, GotCredentials, V, FilesNotBackedUp> {
    /// Takes the file backup one step further, as [`crate::files::backup`]
    /// does.
    ///
    /// The first report is one of an outcome that went through and produced
    /// nothing. The site keeps track of the step, so that none can be left
    /// out: the caller carries out the action it gets back and reports how
    /// that ended, on the site it got back. When the last step went
    /// through, the file backup is behind the site. Whether the database
    /// was backed up plays no part.
    pub fn files_backup(self, outcome: Result<Output, std::io::Error>) -> (r: AppResult<
        Progress<Self, Site<Detected, GotCredentials, V, FilesBackedUp>>,
    >)
        ensures
            outcome matches Err(cause) ==> r matches Err(AppError::IoError(kept)) && kept == cause,
            outcome matches Ok(output) ==> (if output.success {
                match archive_step(self@.archive_stage) {
                    Some((next, wanted)) => r matches Ok(Progress::Pending { site, action })
                        && site.wf() && site@ == (SiteView { archive_stage: next, ..self@ })
                        && action@ == wanted,
                    None => r matches Ok(Progress::Finished(site)) && site.wf() && site@ == self@,
                }
            } else {
                r matches Err(AppError::BackupError(text)) && text@ == output.stderr@
            }),
    {
        proof {
            use_type_invariant(&self);
        }
        match crate::files::backup(self.archive_stage, outcome)? {
            Some((stage, action)) => Ok(
                Progress::Pending {
                    site: Site {
                        detect_state: PhantomData,
                        credentials_state: PhantomData,
                        db_backup_state: PhantomData,
                        files_backup_state: PhantomData,
                        path: self.path,
                        temp: self.temp,
                        site_type: self.site_type,
                        credentials: self.credentials,
                        dump_stage: self.dump_stage,
                        archive_stage: stage,
                    },
                    action,
                },
            ),
            None => Ok(
                Progress::Finished(
                    Site {
                        detect_state: PhantomData,
                        credentials_state: PhantomData,
                        db_backup_state: PhantomData,
                        files_backup_state: PhantomData,
                        path: self.path,
                        temp: self.temp,
                        site_type: self.site_type,
                        credentials: self.credentials,
                        dump_stage: self.dump_stage,
                        archive_stage: self.archive_stage,
                    },
                ),
            ),
        }
    }
}

/// No stage is behind a site before the stages that it builds on: a site
/// with credentials has a type, and a site whose database or files are
/// backed up has credentials. A backup that is behind a site went through
/// every one of its steps.
pub proof fn lemma_stages_in_order<D: Marker, C: Marker, B: Marker, F: Marker>(
    site: Site<D, C, B, F>,
)
    requires
        site.wf(),
    ensures
        in_order(D::reached(), C::reached(), B::reached(), F::reached()),
        D::reached() <==> site@.site_type is Some,
        C::reached() <==> site@.credentials is Some,
        B::reached() ==> site@.dump_stage == DumpStage::Writing,
        F::reached() ==> site@.archive_stage == ArchiveStage::Archiving,
{
}

/// The file backup does not wait for the database backup: the marks of a
/// site whose files are backed up and whose database is not are in order.
/// Neither backup is in order without the credentials, nor the credentials
/// without the type.
pub proof fn lemma_backups_need_credentials_only(detected: bool, database: bool, files: bool)
    ensures
        in_order(true, true, database, files),
        (database || files) ==> !in_order(detected, false, database, files),
        !in_order(false, true, database, files),
{
}

/// A site of a type other than Laravel and WordPress has no credentials,
/// whatever its files hold.
pub proof fn lemma_other_types_have_no_credentials(kind: SiteType, contents: Option<Seq<char>>)
    requires
        kind != SiteType::Laravel,
        kind != SiteType::Wordpress,
    ensures
        credentials_for(kind, contents) is None,
{
}

/// What is decided for a Laravel site whose environment file assigns the
/// three fields: it is detected as one, whatever else its directory holds;
/// it has credentials; the compressed dump is written to `backup.sql.gz`
/// and the archiver is told to write `backup.files.tar.gz`, both in
/// `forge_backup` under the output root.
pub proof fn lemma_laravel_site_gets_both_archives(
    dir: Set<Seq<char>>,
    text: Seq<char>,
    packed: Seq<u8>,
)
    requires
        fingerprint(SiteType::Laravel, dir),
        laravel::credentials_in(text) is Some,
    ensures
        detected(dir) == Some(SiteType::Laravel),
        credentials_for(SiteType::Laravel, Some(text)) == laravel::credentials_in(text),
        dump_step(laravel::credentials_in(text).unwrap(), DumpStage::Compressing, packed) == Some(
            (
                DumpStage::Writing,
                ActionView::Write { dir: backup_dir(), file: dump_file(), bytes: packed },
            ),
        ),
        archive_step(ArchiveStage::Preparing) == Some(
            (ArchiveStage::Archiving, ActionView::Run { command: archive_command(), input: None }),
        ),
        archive_command().args[1] == (ArgumentView::Path {
            dir: backup_dir(),
            file: archive_file(),
        }),
{
    lemma_lowest_is_detected(dir, SiteType::Laravel);
}

} // verus!
