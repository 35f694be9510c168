//! The libraries of a Forge loader: which are installed, where each lies,
//! where it is fetched from, and the classpath that they make.

use vstd::prelude::*;
use vstd::string::*;
use crate::forge::{ForgeInstallError, ForgeInstaller};
use crate::json::forge::JsonDetailsLibrary;
use crate::paths::{file_name_of, file_name_of_path, parent_of, parent_of_path};
use crate::request::RequestError;
use crate::text::{
    chars_of, map_char, map_char_in, same_text, split, split_chars, string_of, views,
};

verus! {

/// Loader versions above this major are listed on the classpath though
/// they come with the loader.
pub const LISTED_LOADER_MAJOR: usize = 48;

/// A library's name, taken apart.
pub struct LibraryName {
    pub group: String,
    pub artifact: String,
    pub version: String,
}

/// How a library gets onto disk.
pub enum LibraryAction {
    /// It comes with the loader: nothing is fetched. `on_classpath` says
    /// whether it is listed all the same.
    Bundled { on_classpath: bool },
    /// It is fetched from `url`, unless it lies on disk already.
    Fetch { url: String },
}

/// What installing one library takes.
pub struct LibraryStep {
    /// The library's line in the readable listing.
    pub clean_entry: String,
    /// The archive's file name.
    pub file: String,
    /// The archive's directory, relative to the libraries directory.
    pub path: String,
    pub action: LibraryAction,
}

/// How fetching one library ended.
pub enum FetchEvent {
    /// The archive lay on disk already.
    AlreadyPresent,
    /// The archive was downloaded.
    Downloaded,
    /// The download failed.
    Failed(RequestError),
}

/// The two classpaths of an installation, as they grow.
pub struct Classpaths {
    /// The archives, each followed by the path-list separator.
    pub classpath: String,
    /// The libraries as `group:artifact`, one per line.
    pub clean_classpath: String,
}

/// A library as plain values.
pub struct LibraryModel {
    pub name: Seq<char>,
    pub url: Option<Seq<char>>,
    /// Path and address of the explicit download descriptor.
    pub artifact: Option<(Seq<char>, Seq<char>)>,
    pub clientreq: Option<bool>,
}

/// A step as plain values.
pub struct StepModel {
    pub clean_entry: Seq<char>,
    pub file: Seq<char>,
    pub path: Seq<char>,
    /// `None` for a library that comes with the loader.
    pub url: Option<Seq<char>>,
    /// Whether the library is listed on the classpath once its archive is
    /// in place: always, but for the loader itself before a certain major.
    pub listed: bool,
}

/// Why a library has no step.
pub enum StepFailure {
    /// Its name has fewer than three parts.
    Name,
    /// Its download path has no parent: it is empty or a root.
    Parent,
    /// Its download path names no file: it ends in `.` or `..`.
    FileName,
}

/// A library as plain values.
pub open spec fn library_model(library: JsonDetailsLibrary) -> LibraryModel {
    LibraryModel {
        name: library.name@,
        url: match library.url {
            Some(u) => Some(u@),
            None => None,
        },
        artifact: match library.downloads {
            Some(d) => Some((d.artifact.path@, d.artifact.url@)),
            None => None,
        },
        clientreq: library.clientreq,
    }
}

/// The libraries as plain values.
pub open spec fn library_models(libraries: Seq<JsonDetailsLibrary>) -> Seq<LibraryModel> {
    Seq::new(libraries.len(), |i: int| library_model(libraries[i]))
}

/// Whether a library belongs to an installation: every library to a
/// server's, and to a client's all but those marked as not required there.
pub open spec fn wanted(clientreq: Option<bool>, is_server: bool) -> bool {
    is_server || clientreq != Some(false)
}

/// The libraries that belong to an installation, in declaration order.
pub open spec fn selected(libraries: Seq<JsonDetailsLibrary>, is_server: bool) -> Seq<
    JsonDetailsLibrary,
>
    decreases libraries.len(),
{
    if libraries.len() == 0 {
        Seq::empty()
    } else {
        let rest = selected(libraries.drop_first(), is_server);
        if wanted(libraries[0].clientreq, is_server) {
            seq![libraries[0]] + rest
        } else {
            rest
        }
    }
}

/// The file name and directory of a library's archive: the last component
/// of the download path and what precedes it where there is such a path,
/// and built from the name's parts otherwise.
pub open spec fn library_file(
    group: Seq<char>,
    artifact: Seq<char>,
    version: Seq<char>,
    download_path: Option<Seq<char>>,
    windows: bool,
) -> Result<(Seq<char>, Seq<char>), StepFailure> {
    match download_path {
        Some(p) => match parent_of(p, windows) {
            None => Err(StepFailure::Parent),
            Some(parent) => match file_name_of(p, windows) {
                None => Err(StepFailure::FileName),
                Some(file) => Ok((file, parent)),
            },
        },
        None => Ok(
            (
                artifact + "-"@ + version + ".jar"@,
                map_char(group, '.', '/') + "/"@ + artifact + "/"@ + version,
            ),
        ),
    }
}

/// Whether the parts name the loader itself.
pub open spec fn is_loader_itself(group: Seq<char>, artifact: Seq<char>) -> bool {
    group == "net.minecraftforge"@ && artifact == "forge"@
}

/// Where a library is fetched from: the explicit address, or the archive's
/// place below the library's own repository or the default one.
pub open spec fn library_url(library: LibraryModel, path: Seq<char>, file: Seq<char>) -> Seq<char> {
    match library.artifact {
        Some(a) => a.1,
        None => {
            let base = match library.url {
                Some(u) => u,
                None => "https://libraries.minecraft.net/"@,
            };
            base + path + "/"@ + file
        },
    }
}

/// What installing a library takes, as plain values.
pub open spec fn step_of(library: LibraryModel, major_version: usize, windows: bool) -> Result<
    StepModel,
    StepFailure,
> {
    let parts = split(library.name, ':');
    if parts.len() < 3 {
        Err(StepFailure::Name)
    } else {
        let download_path = match library.artifact {
            Some(a) => Some(a.0),
            None => None,
        };
        match library_file(parts[0], parts[1], parts[2], download_path, windows) {
            Err(failure) => Err(failure),
            Ok((file, path)) => Ok(
                StepModel {
                    clean_entry: parts[0] + ":"@ + parts[1] + seq!['\n'],
                    file,
                    path,
                    url: if is_loader_itself(parts[0], parts[1]) {
                        None
                    } else {
                        Some(library_url(library, path, file))
                    },
                    listed: is_loader_itself(parts[0], parts[1]) ==> major_version
                        > LISTED_LOADER_MAJOR,
                },
            ),
        }
    }
}

/// One archive on the classpath.
pub open spec fn classpath_entry(path: Seq<char>, file: Seq<char>, separator: char) -> Seq<char> {
    "../forge/libraries/"@ + path + "/"@ + file + seq![separator]
}

/// Whether a fetched library is listed on the classpath: yes where its
/// archive is there, no where the server does not have it, and the failure
/// for any other failure.
pub open spec fn fetch_result(event: FetchEvent) -> Result<bool, RequestError> {
    match event {
        FetchEvent::AlreadyPresent => Ok(true),
        FetchEvent::Downloaded => Ok(true),
        FetchEvent::Failed(e) => if e.not_found() {
            Ok(false)
        } else {
            Err(e)
        },
    }
}

/// The two classpaths after one library: its line in the listing, and its
/// archive on the classpath where it is listed.
pub open spec fn recorded(
    classpaths: (Seq<char>, Seq<char>),
    step: StepModel,
    on_classpath: bool,
    separator: char,
) -> (Seq<char>, Seq<char>) {
    (
        if on_classpath {
            classpaths.0 + classpath_entry(step.path, step.file, separator)
        } else {
            classpaths.0
        },
        classpaths.1 + step.clean_entry,
    )
}

/// The two classpaths after a run of libraries, in order.
pub open spec fn recorded_all(
    classpaths: (Seq<char>, Seq<char>),
    steps: Seq<StepModel>,
    on_classpath: Seq<bool>,
    separator: char,
) -> (Seq<char>, Seq<char>)
    recommends
        steps.len() == on_classpath.len(),
    decreases steps.len(),
{
    if steps.len() == 0 {
        classpaths
    } else {
        recorded(
            recorded_all(classpaths, steps.drop_last(), on_classpath.drop_last(), separator),
            steps.last(),
            on_classpath.last(),
            separator,
        )
    }
}

/// A client's installation holds no library marked as not required there, a
/// server's holds every library, and either holds its libraries in
/// declaration order: what is selected is selected from the list, and what
/// belongs to the installation is selected.
pub proof fn lemma_selected(libraries: Seq<JsonDetailsLibrary>, is_server: bool)
    ensures
        forall|i: int|
            0 <= i < selected(libraries, is_server).len() ==> {
                let library = #[trigger] selected(libraries, is_server)[i];
                wanted(library.clientreq, is_server) && libraries.contains(library)
            },
        forall|i: int|
            0 <= i < libraries.len() && wanted((#[trigger] libraries[i]).clientreq, is_server)
                ==> selected(libraries, is_server).contains(libraries[i]),
        is_server ==> selected(libraries, is_server) == libraries,
        selected(libraries, is_server).len() <= libraries.len(),
    decreases libraries.len(),
{
    let out = selected(libraries, is_server);
    if libraries.len() > 0 {
        let rest_in = libraries.drop_first();
        let rest = selected(rest_in, is_server);
        lemma_selected(rest_in, is_server);
        let keep = wanted(libraries[0].clientreq, is_server);
        assert forall|i: int| 0 <= i < out.len() implies {
            let library = #[trigger] out[i];
            wanted(library.clientreq, is_server) && libraries.contains(library)
        } by {
            if keep && i == 0 {
                assert(libraries[0] == out[0]);
            } else {
                let k = if keep {
                    i - 1
                } else {
                    i
                };
                assert(out[i] == rest[k]);
                assert(rest_in.contains(rest[k]));
                let j = choose|j: int| 0 <= j < rest_in.len() && rest_in[j] == rest[k];
                assert(libraries[j + 1] == rest[k]);
            }
        }
        assert forall|i: int|
            0 <= i < libraries.len() && wanted(
                (#[trigger] libraries[i]).clientreq,
                is_server,
            ) implies out.contains(libraries[i]) by {
            if i == 0 {
                assert(out[0] == libraries[0]);
            } else {
                assert(rest_in[i - 1] == libraries[i]);
                assert(rest.contains(rest_in[i - 1]));
                let j = choose|j: int| 0 <= j < rest.len() && rest[j] == rest_in[i - 1];
                if keep {
                    assert(out[j + 1] == rest[j]);
                } else {
                    assert(out[j] == rest[j]);
                }
            }
        }
        if is_server {
            assert(out =~= libraries);
        }
    }
}

/// Recording a run of libraries and then another is recording both runs
/// as one: the classpaths follow the declaration order and nothing else.
pub proof fn lemma_recorded_all_append(
    classpaths: (Seq<char>, Seq<char>),
    first: Seq<StepModel>,
    first_listed: Seq<bool>,
    second: Seq<StepModel>,
    second_listed: Seq<bool>,
    separator: char,
)
    requires
        first.len() == first_listed.len(),
        second.len() == second_listed.len(),
    ensures
        recorded_all(classpaths, first + second, first_listed + second_listed, separator)
            == recorded_all(
            recorded_all(classpaths, first, first_listed, separator),
            second,
            second_listed,
            separator,
        ),
    decreases second.len(),
{
    if second.len() == 0 {
        assert(first + second =~= first);
        assert(first_listed + second_listed =~= first_listed);
    } else {
        assert((first + second).drop_last() =~= first + second.drop_last());
        assert((first_listed + second_listed).drop_last() =~= first_listed
            + second_listed.drop_last());
        assert((first + second).last() == second.last());
        assert((first_listed + second_listed).last() == second_listed.last());
        lemma_recorded_all_append(
            classpaths,
            first,
            first_listed,
            second.drop_last(),
            second_listed.drop_last(),
            separator,
        );
    }
}

/// The classpaths depend on what the libraries say and on nothing else:
/// the same steps with the same outcomes give the same text.
pub proof fn lemma_classpath_deterministic(
    classpaths: (Seq<char>, Seq<char>),
    steps: Seq<StepModel>,
    listed: Seq<bool>,
    other_steps: Seq<StepModel>,
    other_listed: Seq<bool>,
    separator: char,
)
    requires
        steps.len() == listed.len(),
        other_steps.len() == other_listed.len(),
        steps.len() == other_steps.len(),
        forall|i: int| 0 <= i < steps.len() ==> steps[i] == other_steps[i],
        forall|i: int| 0 <= i < listed.len() ==> listed[i] == other_listed[i],
    ensures
        recorded_all(classpaths, steps, listed, separator) == recorded_all(
            classpaths,
            other_steps,
            other_listed,
            separator,
        ),
{
    assert(steps =~= other_steps);
    assert(listed =~= other_listed);
}

impl LibraryStep {
    /// The step as plain values.
    pub open spec fn view(&self) -> StepModel {
        StepModel {
            clean_entry: self.clean_entry@,
            file: self.file@,
            path: self.path@,
            url: match self.action {
                LibraryAction::Bundled { .. } => None,
                LibraryAction::Fetch { url } => Some(url@),
            },
            listed: match self.action {
                LibraryAction::Bundled { on_classpath } => on_classpath,
                LibraryAction::Fetch { .. } => true,
            },
        }
    }
}

impl Classpaths {
    /// The two classpaths as plain text.
    pub open spec fn view(&self) -> (Seq<char>, Seq<char>) {
        (self.classpath@, self.clean_classpath@)
    }

    /// The classpaths of an installation that has not seen a library yet.
    pub fn start(initial_classpath: String) -> (classpaths: Classpaths)
        ensures
            classpaths@ == (initial_classpath@, Seq::<char>::empty()),
    {
        Classpaths { classpath: initial_classpath, clean_classpath: String::new() }
    }

    /// Records a run of libraries, in order, each with whether it is listed
    /// on the classpath.
    pub fn record_all(&mut self, steps: &Vec<(LibraryStep, bool)>, separator: char)
        ensures
            final(self)@ == recorded_all(
                old(self)@,
                Seq::new(steps@.len(), |i: int| steps@[i].0@),
                Seq::new(steps@.len(), |i: int| steps@[i].1),
                separator,
            ),
    {
        let ghost models = Seq::new(steps@.len(), |i: int| steps@[i].0@);
        let ghost listed = Seq::new(steps@.len(), |i: int| steps@[i].1);
        let mut i: usize = 0;
        proof {
            assert(models.take(0) =~= Seq::<StepModel>::empty());
            assert(listed.take(0) =~= Seq::<bool>::empty());
        }
        while i < steps.len()
            invariant
                i <= steps.len(),
                models == Seq::new(steps@.len(), |i: int| steps@[i].0@),
                listed == Seq::new(steps@.len(), |i: int| steps@[i].1),
                self@ == recorded_all(
                    old(self)@,
                    models.take(i as int),
                    listed.take(i as int),
                    separator,
                ),
            decreases steps.len() - i,
        {
            proof {
                assert(models.take(i + 1).drop_last() =~= models.take(i as int));
                assert(listed.take(i + 1).drop_last() =~= listed.take(i as int));
                assert(models.take(i + 1).last() == steps@[i as int].0@);
                assert(listed.take(i + 1).last() == steps@[i as int].1);
            }
            self.record(&steps[i].0, steps[i].1, separator);
            i += 1;
        }
        proof {
            assert(models.take(steps.len() as int) =~= models);
            assert(listed.take(steps.len() as int) =~= listed);
        }
    }

    /// Records one library: its line in the listing and, where
    /// `on_classpath` is set, its archive on the classpath.
    pub fn record(&mut self, step: &LibraryStep, on_classpath: bool, separator: char)
        ensures
            final(self)@ == recorded(old(self)@, step@, on_classpath, separator),
    {
        self.clean_classpath.append(step.clean_entry.as_str());
        if on_classpath {
            add_to_classpath(
                &mut self.classpath,
                step.path.as_str(),
                step.file.as_str(),
                separator,
            );
        }
    }
}

/// Appends one archive to a classpath.
pub fn add_to_classpath(classpath: &mut String, path: &str, file: &str, separator: char)
    ensures
        final(classpath)@ == old(classpath)@ + classpath_entry(path@, file@, separator),
{
    classpath.append("../forge/libraries/");
    classpath.append(path);
    classpath.append("/");
    classpath.append(file);
    classpath.push(separator);
    proof {
        assert(classpath@ =~= old(classpath)@ + classpath_entry(path@, file@, separator));
    }
}

/// The parts of a library's name, where it has at least three.
pub fn parse_library_name(name: &str) -> (r: Option<LibraryName>)
    ensures
        match r {
            Some(n) => {
                &&& split(name@, ':').len() >= 3
                &&& n.group@ == split(name@, ':')[0]
                &&& n.artifact@ == split(name@, ':')[1]
                &&& n.version@ == split(name@, ':')[2]
            },
            None => split(name@, ':').len() < 3,
        },
{
    let v = chars_of(name);
    let parts = split_chars(v.as_slice(), ':');
    proof {
        assert(views(parts@).len() == parts@.len());
    }
    if parts.len() < 3 {
        return None;
    }
    proof {
        assert(views(parts@)[0] == parts@[0]@);
        assert(views(parts@)[1] == parts@[1]@);
        assert(views(parts@)[2] == parts@[2]@);
    }
    Some(
        LibraryName {
            group: string_of(parts[0].as_slice()),
            artifact: string_of(parts[1].as_slice()),
            version: string_of(parts[2].as_slice()),
        },
    )
}

/// The file name and directory of a library's archive.
pub fn get_filename_and_path(
    lib: &str,
    ver: &str,
    library: &JsonDetailsLibrary,
    class: &str,
    windows: bool,
) -> (r: Result<(String, String), ForgeInstallError>)
    ensures
        match library_file(
            class@,
            lib@,
            ver@,
            match library_model(*library).artifact {
                Some(a) => Some(a.0),
                None => None,
            },
            windows,
        ) {
            Ok((file, path)) => r matches Ok(found) && found.0@ == file && found.1@ == path,
            Err(StepFailure::Parent) => r matches Err(ForgeInstallError::LibraryParentError),
            Err(_) => r matches Err(ForgeInstallError::LibraryFileName),
        },
{
    match &library.downloads {
        Some(downloads) => {
            let p = chars_of(downloads.artifact.path.as_str());
            let parent = match parent_of_path(p.as_slice(), windows) {
                Some(parent) => parent,
                None => {
                    return Err(ForgeInstallError::LibraryParentError);
                },
            };
            match file_name_of_path(p.as_slice(), windows) {
                Some(file) => Ok((string_of(file.as_slice()), string_of(parent.as_slice()))),
                None => Err(ForgeInstallError::LibraryFileName),
            }
        },
        None => {
            let file = String::from_str(lib).concat("-").concat(ver).concat(".jar");
            let group = chars_of(class);
            let dir = map_char_in(group.as_slice(), '.', '/');
            let path = string_of(dir.as_slice()).concat("/").concat(lib).concat("/").concat(ver);
            Ok((file, path))
        },
    }
}

/// Whether fetching put a library's archive in place, so that it is
/// listed on the classpath. A library that the server does not have is
/// passed over; any other failure ends the installation.
pub fn after_fetch(event: FetchEvent) -> (r: Result<bool, ForgeInstallError>)
    ensures
        match fetch_result(event) {
            Ok(listed) => r == Ok::<bool, ForgeInstallError>(listed),
            Err(e) => r == Err::<bool, ForgeInstallError>(ForgeInstallError::Request(e)),
        },
{
    match event {
        FetchEvent::AlreadyPresent => Ok(true),
        FetchEvent::Downloaded => Ok(true),
        FetchEvent::Failed(e) => {
            if e.is_not_found() {
                Ok(false)
            } else {
                Err(ForgeInstallError::Request(e))
            }
        },
    }
}

/// The libraries that belong to an installation, in declaration order.
pub fn select_libraries(libraries: Vec<JsonDetailsLibrary>, is_server: bool) -> (r: Vec<
    JsonDetailsLibrary,
>)
    ensures
        r@ == selected(libraries@, is_server),
{
    let mut rest = libraries;
    let mut r: Vec<JsonDetailsLibrary> = Vec::new();
    proof {
        assert(r@ + selected(rest@, is_server) =~= selected(libraries@, is_server));
    }
    while rest.len() > 0
        invariant
            r@ + selected(rest@, is_server) == selected(libraries@, is_server),
        decreases rest.len(),
    {
        let ghost before = rest@;
        let ghost done = r@;
        let library = rest.remove(0);
        proof {
            assert(rest@ =~= before.drop_first());
            assert(library == before[0]);
        }
        let keep = is_server || match library.clientreq {
            Some(required) => required,
            None => true,
        };
        if keep {
            r.push(library);
            proof {
                assert(r@ + selected(rest@, is_server) =~= done + (seq![library] + selected(
                    rest@,
                    is_server,
                )));
            }
        }
    }
    proof {
        assert(r@ + Seq::<JsonDetailsLibrary>::empty() =~= r@);
    }
    r
}

impl ForgeInstaller {
    /// What installing `library` takes: its line in the listing, where its
    /// archive lies, and whether and from where it is fetched.
    pub fn plan_library(&self, library: &JsonDetailsLibrary, windows: bool) -> (r: Result<
        LibraryStep,
        ForgeInstallError,
    >)
        ensures
            match step_of(library_model(*library), self.major_version, windows) {
                Ok(step) => r matches Ok(found) && found@ == step,
                Err(StepFailure::Name) => r matches Err(ForgeInstallError::LibraryName(n)) && n@
                    == library.name@,
                Err(StepFailure::Parent) => r matches Err(ForgeInstallError::LibraryParentError),
                Err(StepFailure::FileName) => r matches Err(ForgeInstallError::LibraryFileName),
            },
    {
        let name = match parse_library_name(library.name.as_str()) {
            Some(name) => name,
            None => {
                return Err(ForgeInstallError::LibraryName(library.name.clone()));
            },
        };
        let mut clean_entry = name.group.clone().concat(":").concat(name.artifact.as_str());
        clean_entry.push('\n');
        let (file, path) = match get_filename_and_path(
            name.artifact.as_str(),
            name.version.as_str(),
            library,
            name.group.as_str(),
            windows,
        ) {
            Ok(found) => found,
            Err(e) => {
                return Err(e);
            },
        };
        let action = if same_text(name.group.as_str(), "net.minecraftforge") && same_text(
            name.artifact.as_str(),
            "forge",
        ) {
            LibraryAction::Bundled { on_classpath: self.major_version > LISTED_LOADER_MAJOR }
        } else {
            let url = match &library.downloads {
                Some(downloads) => downloads.artifact.url.clone(),
                None => {
                    let base = match &library.url {
                        Some(url) => url.clone(),
                        None => String::from_str("https://libraries.minecraft.net/"),
                    };
                    base.concat(path.as_str()).concat("/").concat(file.as_str())
                },
            };
            LibraryAction::Fetch { url }
        };
        let step = LibraryStep { clean_entry, file, path, action };
        proof {
            let parts = split(library.name@, ':');
            assert(step.clean_entry@ =~= parts[0] + ":"@ + parts[1] + seq!['\n']);
        }
        Ok(step)
    }
}

} // verus!
