//! The launch archive of a server: a manifest, the launch properties and,
//! when libraries are shaded, the merged contents of every library archive.

use vstd::prelude::*;
use vstd::string::*;
use vstd::utf8::{decode_utf8, encode_utf8, valid_utf8};
use crate::manifest::{fold_lines, manifest_text, ManifestBuilder};
use crate::paths::{relative_to_parent, relative_to_parent_of};
use crate::pattern::{pattern_compiles, regex_search, Expression};
use crate::services::{
    add_providers, deduplicated, descriptor_text, distinct, lemma_add_providers,
    lemma_add_providers_twice, lemma_add_to_empty, parse_service_definition, provider_lines,
    table_wf, ServiceModel, ServiceTable,
};
use crate::text::{
    chars_of, copy_range, find_char_in, join, join_strings, lemma_find_char,
    map_char, map_char_in, starts_with_chars, string_of, string_views, utf8_text,
};

verus! {

/// Name of the manifest entry.
pub const MANIFEST_PATH: &'static str = "META-INF/MANIFEST.MF";

/// Directory of the service-provider descriptors.
pub const SERVICES_DIR: &'static str = "META-INF/services/";

/// Name of the launch properties entry.
pub const LAUNCH_PROPERTIES_PATH: &'static str = "fabric-server-launch.properties";

/// The class that the manifest names as the archive's entry point.
pub const MAIN_CLASS_MANIFEST: &'static str =
    "net.fabricmc.loader.impl.launch.server.FabricServerLauncher";

/// The expression that recognises signature files.
pub const SIGNATURE_PATTERN: &'static str = "^META-INF/[^/]+\\.(SF|DSA|RSA|EC)$";

/// Why a launch archive could not be made.
pub enum FabricInstallError {
    /// The named entry of a library archive is a service descriptor whose
    /// bytes are not text.
    ZipEntryReadError(String),
    /// The signature-file expression was not accepted.
    SignaturePattern,
}

/// One entry read from a library archive.
pub struct ArchiveEntry {
    pub name: String,
    pub is_dir: bool,
    pub data: Vec<u8>,
}

/// One library: where its archive lies and, for shading, what it holds.
pub struct LibraryFile {
    pub path: String,
    pub entries: Vec<ArchiveEntry>,
}

/// One entry of the launch archive.
pub struct JarEntry {
    pub name: String,
    pub data: Vec<u8>,
}

/// A launch archive under construction.
pub struct LaunchJar {
    pub entries: Vec<JarEntry>,
    pub services: ServiceTable,
    pub signature: Option<Expression>,
}

/// An archive entry as plain values.
pub struct EntryModel {
    pub name: Seq<char>,
    pub is_dir: bool,
    pub data: Seq<u8>,
}

/// An entry of the launch archive as plain values: name and bytes.
pub type JarItem = (Seq<char>, Seq<u8>);

/// A launch archive under construction, as plain values.
pub struct JarModel {
    pub items: Seq<JarItem>,
    pub services: Seq<ServiceModel>,
}

/// What shading does with one entry of a library archive.
#[derive(PartialEq, Eq, Structural, Clone, Copy, Debug)]
pub enum EntryAction {
    /// A directory: passed over.
    SkipDirectory,
    /// A service descriptor: merged with the others of its name.
    MergeService,
    /// A signature file: dropped.
    DropSignature,
    /// A name that the archive holds already: dropped.
    DropDuplicate,
    /// Anything else: copied as it is.
    Copy,
}

/// A library's class-path entry: its path relative to its own parent
/// directory, with forward slashes.
pub open spec fn class_path_entry(path: Seq<char>, windows: bool) -> Seq<char> {
    map_char(relative_to_parent(path, windows), '\\', '/')
}

/// The class-path entries of the libraries, in order.
pub open spec fn class_path_entries(paths: Seq<Seq<char>>, windows: bool) -> Seq<Seq<char>> {
    Seq::new(paths.len(), |i: int| class_path_entry(paths[i], windows))
}

/// The manifest's lines: the version, the class path unless libraries are
/// shaded, and the main class.
pub open spec fn manifest_lines(paths: Seq<Seq<char>>, shade: bool, windows: bool) -> Seq<
    Seq<char>,
> {
    let class_path = if shade {
        Seq::<Seq<char>>::empty()
    } else {
        fold_lines("Class-Path: "@ + join(class_path_entries(paths, windows), " "@))
    };
    seq!["Manifest-Version: 1.0"@] + class_path + fold_lines(
        "Main-Class: "@ + MAIN_CLASS_MANIFEST@,
    )
}

/// The two entries that every launch archive begins with.
pub open spec fn initial_items(
    launch_main_class: Seq<char>,
    paths: Seq<Seq<char>>,
    shade: bool,
    windows: bool,
) -> Seq<JarItem> {
    seq![
        (MANIFEST_PATH@, encode_utf8(manifest_text(manifest_lines(paths, shade, windows)))),
        (
            LAUNCH_PROPERTIES_PATH@,
            encode_utf8("launch.mainClass="@ + launch_main_class + seq!['\n']),
        ),
    ]
}

/// Whether `name` is a service descriptor: directly inside the services
/// directory.
pub open spec fn is_service_name(name: Seq<char>) -> bool {
    SERVICES_DIR@.is_prefix_of(name) && !name.skip(SERVICES_DIR@.len() as int).contains('/')
}

/// Whether the archive holds an entry called `name`.
pub open spec fn has_item(items: Seq<JarItem>, name: Seq<char>) -> bool {
    exists|i: int| 0 <= i < items.len() && (#[trigger] items[i]).0 == name
}

/// What shading does with an entry, given whether the signature expression
/// matches its name and whether the archive holds its name already.
pub open spec fn entry_action(
    name: Seq<char>,
    is_dir: bool,
    is_signature: bool,
    already_added: bool,
) -> EntryAction {
    if is_dir {
        EntryAction::SkipDirectory
    } else if is_service_name(name) {
        EntryAction::MergeService
    } else if is_signature {
        EntryAction::DropSignature
    } else if already_added {
        EntryAction::DropDuplicate
    } else {
        EntryAction::Copy
    }
}

/// The archive after one library entry was shaded into it, or the entry's
/// name where it is a service descriptor that is not text.
pub open spec fn shade_step(st: JarModel, e: EntryModel) -> Result<JarModel, Seq<char>> {
    match entry_action(
        e.name,
        e.is_dir,
        regex_search(SIGNATURE_PATTERN@, e.name),
        has_item(st.items, e.name),
    ) {
        EntryAction::MergeService => if valid_utf8(e.data) {
            Ok(
                JarModel {
                    items: st.items,
                    services: add_providers(
                        st.services,
                        e.name,
                        provider_lines(decode_utf8(e.data)),
                    ),
                },
            )
        } else {
            Err(e.name)
        },
        EntryAction::Copy => Ok(
            JarModel { items: st.items.push((e.name, e.data)), services: st.services },
        ),
        _ => Ok(st),
    }
}

/// The archive after the entries were shaded into it, in order, or the name
/// of the first service descriptor that is not text.
pub open spec fn shade_all(st: JarModel, entries: Seq<EntryModel>) -> Result<JarModel, Seq<char>>
    decreases entries.len(),
{
    if entries.len() == 0 {
        Ok(st)
    } else {
        match shade_all(st, entries.drop_last()) {
            Ok(s) => shade_step(s, entries.last()),
            Err(name) => Err(name),
        }
    }
}

/// The archive after every library was shaded into it, in order.
pub open spec fn shade_libraries(st: JarModel, libraries: Seq<Seq<EntryModel>>) -> Result<
    JarModel,
    Seq<char>,
>
    decreases libraries.len(),
{
    if libraries.len() == 0 {
        Ok(st)
    } else {
        match shade_libraries(st, libraries.drop_last()) {
            Ok(s) => shade_all(s, libraries.last()),
            Err(name) => Err(name),
        }
    }
}

/// The entries that the merged service descriptors become.
pub open spec fn service_items(services: Seq<ServiceModel>) -> Seq<JarItem> {
    Seq::new(
        services.len(),
        |i: int| (services[i].0, encode_utf8(descriptor_text(services[i].1))),
    )
}

/// The finished archive's entries.
pub open spec fn finished_items(st: JarModel) -> Seq<JarItem> {
    st.items + service_items(st.services)
}

/// Whether no two entries share a name.
pub open spec fn distinct_names(items: Seq<JarItem>) -> bool {
    forall|i: int, j: int| 0 <= i < j < items.len() ==> items[i].0 != items[j].0
}

/// Whether the archive keeps its two kinds of entries apart: what was
/// copied is no service descriptor, every merged descriptor is one, and no
/// name occurs twice on either side.
pub open spec fn well_kept(st: JarModel) -> bool {
    &&& distinct_names(st.items)
    &&& table_wf(st.services)
    &&& forall|i: int| 0 <= i < st.items.len() ==> !is_service_name((#[trigger] st.items[i]).0)
    &&& forall|i: int|
        0 <= i < st.services.len() ==> is_service_name((#[trigger] st.services[i]).0)
}

/// The entries of library archives as plain values.
pub open spec fn entry_models(entries: Seq<ArchiveEntry>) -> Seq<EntryModel> {
    Seq::new(entries.len(), |i: int| entries[i]@)
}

/// The entries of every library as plain values.
pub open spec fn library_models(libraries: Seq<LibraryFile>) -> Seq<Seq<EntryModel>> {
    Seq::new(libraries.len(), |i: int| entry_models(libraries[i].entries@))
}

/// The paths of the libraries.
pub open spec fn library_paths(libraries: Seq<LibraryFile>) -> Seq<Seq<char>> {
    Seq::new(libraries.len(), |i: int| libraries[i].path@)
}

/// The entries of a launch archive as plain values.
pub open spec fn jar_items(entries: Seq<JarEntry>) -> Seq<JarItem> {
    Seq::new(entries.len(), |i: int| entries[i]@)
}

/// The launch archive for a main class and libraries: its entries, or the
/// name of the first service descriptor that is not text.
pub open spec fn launch_jar_items(
    launch_main_class: Seq<char>,
    paths: Seq<Seq<char>>,
    libraries: Seq<Seq<EntryModel>>,
    shade: bool,
    windows: bool,
) -> Result<Seq<JarItem>, Seq<char>> {
    let start = JarModel {
        items: initial_items(launch_main_class, paths, shade, windows),
        services: Seq::empty(),
    };
    if shade {
        match shade_libraries(start, libraries) {
            Ok(st) => Ok(finished_items(st)),
            Err(name) => Err(name),
        }
    } else {
        Ok(finished_items(start))
    }
}

/// Shading one entry keeps what the archive holds (the first entry of a name
/// wins), adds at most the entry itself, never a directory, a service
/// descriptor or a signature file, and keeps names distinct and the service
/// table well formed.
pub proof fn lemma_shade_step(st: JarModel, e: EntryModel)
    requires
        distinct_names(st.items),
        table_wf(st.services),
    ensures
        shade_step(st, e) matches Ok(next) ==> {
            &&& distinct_names(next.items)
            &&& table_wf(next.services)
            &&& st.items.is_prefix_of(next.items)
            &&& next.items.len() <= st.items.len() + 1
            &&& next.items.len() == st.items.len() + 1 ==> {
                &&& next.items.last() == (e.name, e.data)
                &&& !e.is_dir
                &&& !is_service_name(e.name)
                &&& !regex_search(SIGNATURE_PATTERN@, e.name)
                &&& !has_item(st.items, e.name)
            }
        },
{
    match shade_step(st, e) {
        Ok(next) => {
            if next.items.len() == st.items.len() + 1 {
                assert(next.items == st.items.push((e.name, e.data)));
                assert forall|i: int, j: int| 0 <= i < j < next.items.len() implies next.items[i].0
                    != next.items[j].0 by {
                    if j == st.items.len() {
                        assert(st.items[i].0 != e.name);
                    }
                }
            }
            if is_service_name(e.name) && !e.is_dir {
                lemma_add_providers(st.services, e.name, provider_lines(decode_utf8(e.data)));
            }
        },
        Err(_) => {},
    }
}

/// Shading one entry keeps the two kinds of entries apart.
pub proof fn lemma_shade_step_kept(st: JarModel, e: EntryModel)
    requires
        well_kept(st),
    ensures
        shade_step(st, e) matches Ok(next) ==> well_kept(next),
{
    lemma_shade_step(st, e);
    match shade_step(st, e) {
        Ok(next) => {
            assert forall|i: int| 0 <= i < next.items.len() implies !is_service_name(
                (#[trigger] next.items[i]).0,
            ) by {
                if i < st.items.len() {
                    assert(next.items[i] == st.items[i]);
                }
            }
            if is_service_name(e.name) && !e.is_dir {
                lemma_add_providers(st.services, e.name, provider_lines(decode_utf8(e.data)));
            }
            assert forall|i: int| 0 <= i < next.services.len() implies is_service_name(
                (#[trigger] next.services[i]).0,
            ) by {
                let n = next.services[i].0;
                if n != e.name && next.services != st.services {
                    let j = choose|j: int|
                        0 <= j < st.services.len() && (#[trigger] st.services[j]).0 == n;
                    assert(is_service_name(st.services[j].0));
                }
            }
        },
        Err(_) => {},
    }
}

/// Shading a run of entries keeps the two kinds of entries apart and keeps
/// everything that the archive held before.
pub proof fn lemma_shade_all(st: JarModel, entries: Seq<EntryModel>)
    requires
        well_kept(st),
    ensures
        shade_all(st, entries) matches Ok(next) ==> well_kept(next) && st.items.is_prefix_of(
            next.items,
        ),
    decreases entries.len(),
{
    if entries.len() > 0 {
        lemma_shade_all(st, entries.drop_last());
        match shade_all(st, entries.drop_last()) {
            Ok(s) => {
                lemma_shade_step(s, entries.last());
                lemma_shade_step_kept(s, entries.last());
            },
            Err(_) => {},
        }
    }
}

/// Shading a run of libraries keeps the two kinds of entries apart and
/// keeps everything that the archive held before.
pub proof fn lemma_shade_libraries(st: JarModel, libraries: Seq<Seq<EntryModel>>)
    requires
        well_kept(st),
    ensures
        shade_libraries(st, libraries) matches Ok(next) ==> well_kept(next)
            && st.items.is_prefix_of(next.items),
    decreases libraries.len(),
{
    if libraries.len() > 0 {
        lemma_shade_libraries(st, libraries.drop_last());
        match shade_libraries(st, libraries.drop_last()) {
            Ok(s) => {
                lemma_shade_all(s, libraries.last());
            },
            Err(_) => {},
        }
    }
}

/// An archive that keeps its two kinds of entries apart has no name twice
/// when it is finished.
pub proof fn lemma_finished_distinct(st: JarModel)
    requires
        well_kept(st),
    ensures
        distinct_names(finished_items(st)),
{
    let all = finished_items(st);
    let merged = service_items(st.services);
    assert forall|i: int, j: int| 0 <= i < j < all.len() implies all[i].0 != all[j].0 by {
        if j < st.items.len() {
            assert(all[i] == st.items[i] && all[j] == st.items[j]);
        } else if i < st.items.len() {
            assert(all[i] == st.items[i]);
            assert(all[j] == merged[j - st.items.len()]);
            assert(all[j].0 == st.services[j - st.items.len()].0);
        } else {
            assert(all[i].0 == st.services[i - st.items.len()].0);
            assert(all[j].0 == st.services[j - st.items.len()].0);
        }
    }
}

/// A service descriptor that is shaded a second time with the same text
/// changes nothing.
pub proof fn lemma_same_descriptor_again(st: JarModel, e: EntryModel)
    requires
        !e.is_dir,
        is_service_name(e.name),
    ensures
        shade_step(st, e) matches Ok(once) ==> shade_step(once, e) == Ok::<JarModel, Seq<char>>(
            once,
        ),
{
    if valid_utf8(e.data) {
        lemma_add_providers_twice(st.services, e.name, provider_lines(decode_utf8(e.data)));
    }
}

/// Two libraries that each hold the same service descriptor give the
/// archive that one of them gives: behind the manifest and the launch
/// properties it has one entry of the descriptor's name, which lists every
/// provider once.
pub proof fn lemma_descriptor_of_two_libraries(
    launch_main_class: Seq<char>,
    paths: Seq<Seq<char>>,
    e: EntryModel,
    windows: bool,
)
    requires
        !e.is_dir,
        is_service_name(e.name),
        valid_utf8(e.data),
        provider_lines(decode_utf8(e.data)).len() > 0,
    ensures
        launch_jar_items(launch_main_class, paths, seq![seq![e], seq![e]], true, windows)
            == launch_jar_items(launch_main_class, paths, seq![seq![e]], true, windows),
        launch_jar_items(launch_main_class, paths, seq![seq![e], seq![e]], true, windows)
            == Ok::<Seq<JarItem>, Seq<char>>(
            initial_items(launch_main_class, paths, true, windows) + seq![
                (
                    e.name,
                    encode_utf8(
                        descriptor_text(deduplicated(provider_lines(decode_utf8(e.data)))),
                    ),
                ),
            ],
        ),
        distinct(deduplicated(provider_lines(decode_utf8(e.data)))),
        deduplicated(provider_lines(decode_utf8(e.data))).to_set() == provider_lines(
            decode_utf8(e.data),
        ).to_set(),
{
    let ps = provider_lines(decode_utf8(e.data));
    let first = initial_items(launch_main_class, paths, true, windows);
    let start = JarModel { items: first, services: Seq::empty() };
    let once = JarModel { items: first, services: add_providers(Seq::empty(), e.name, ps) };
    let one = seq![e];
    let single = seq![one];
    let both = seq![one, one];
    lemma_add_to_empty(e.name, ps);
    lemma_same_descriptor_again(start, e);
    assert(shade_step(start, e) == Ok::<JarModel, Seq<char>>(once));
    assert(one.drop_last() =~= Seq::<EntryModel>::empty());
    assert(one.last() == e);
    assert(shade_all(start, one.drop_last()) == Ok::<JarModel, Seq<char>>(start));
    assert(shade_all(start, one) == Ok::<JarModel, Seq<char>>(once));
    assert(shade_all(once, one.drop_last()) == Ok::<JarModel, Seq<char>>(once));
    assert(shade_all(once, one) == Ok::<JarModel, Seq<char>>(once));
    assert(single.drop_last() =~= Seq::<Seq<EntryModel>>::empty());
    assert(single.last() == one);
    assert(shade_libraries(start, single.drop_last()) == Ok::<JarModel, Seq<char>>(start));
    assert(shade_libraries(start, single) == Ok::<JarModel, Seq<char>>(once));
    assert(both.drop_last() =~= single);
    assert(both.last() == one);
    assert(shade_libraries(start, both) == Ok::<JarModel, Seq<char>>(once));
    assert(service_items(once.services) =~= seq![
        (e.name, encode_utf8(descriptor_text(deduplicated(ps)))),
    ]);
}

/// The two entries that an archive begins with are kept apart from service
/// descriptors and from each other.
pub proof fn lemma_initial_well_kept(
    launch_main_class: Seq<char>,
    paths: Seq<Seq<char>>,
    shade: bool,
    windows: bool,
)
    ensures
        well_kept(
            JarModel {
                items: initial_items(launch_main_class, paths, shade, windows),
                services: Seq::empty(),
            },
        ),
{
    let first = initial_items(launch_main_class, paths, shade, windows);
    let start = JarModel { items: first, services: Seq::empty() };
    reveal_strlit("META-INF/MANIFEST.MF");
    reveal_strlit("META-INF/services/");
    reveal_strlit("fabric-server-launch.properties");
    assert(MANIFEST_PATH@[9] != SERVICES_DIR@[9]);
    assert(LAUNCH_PROPERTIES_PATH@[0] != SERVICES_DIR@[0]);
    assert(MANIFEST_PATH@[0] != LAUNCH_PROPERTIES_PATH@[0]);
    assert(!SERVICES_DIR@.is_prefix_of(MANIFEST_PATH@)) by {
        if SERVICES_DIR@.is_prefix_of(MANIFEST_PATH@) {
            assert(MANIFEST_PATH@.subrange(0, SERVICES_DIR@.len() as int)[9] == SERVICES_DIR@[9]);
        }
    }
    assert(!SERVICES_DIR@.is_prefix_of(LAUNCH_PROPERTIES_PATH@)) by {
        if SERVICES_DIR@.is_prefix_of(LAUNCH_PROPERTIES_PATH@) {
            assert(LAUNCH_PROPERTIES_PATH@.subrange(0, SERVICES_DIR@.len() as int)[0]
                == SERVICES_DIR@[0]);
        }
    }
    assert(well_kept(start));
}

/// A launch archive never holds two entries of one name, whatever the
/// libraries hold, and begins with its manifest and launch properties.
pub proof fn lemma_launch_jar_distinct(
    launch_main_class: Seq<char>,
    paths: Seq<Seq<char>>,
    libraries: Seq<Seq<EntryModel>>,
    shade: bool,
    windows: bool,
)
    ensures
        launch_jar_items(launch_main_class, paths, libraries, shade, windows) matches Ok(items)
            ==> distinct_names(items) && initial_items(
            launch_main_class,
            paths,
            shade,
            windows,
        ).is_prefix_of(items),
{
    let first = initial_items(launch_main_class, paths, shade, windows);
    let start = JarModel { items: first, services: Seq::empty() };
    lemma_initial_well_kept(launch_main_class, paths, shade, windows);
    if shade {
        lemma_shade_libraries(start, libraries);
        match shade_libraries(start, libraries) {
            Ok(st) => {
                lemma_finished_distinct(st);
            },
            Err(_) => {},
        }
    } else {
        lemma_finished_distinct(start);
    }
}

/// A descriptor that is not text fails the whole run, whatever follows it.
pub proof fn lemma_shade_all_error(st: JarModel, entries: Seq<EntryModel>, k: int)
    requires
        0 <= k <= entries.len(),
        shade_all(st, entries.take(k)) is Err,
    ensures
        shade_all(st, entries) == shade_all(st, entries.take(k)),
    decreases entries.len() - k,
{
    if k == entries.len() {
        assert(entries.take(k) =~= entries);
    } else {
        assert(entries.take(k + 1).drop_last() =~= entries.take(k));
        lemma_shade_all_error(st, entries, k + 1);
    }
}

/// A library that fails fails the whole archive, whatever follows it.
pub proof fn lemma_shade_libraries_error(st: JarModel, libraries: Seq<Seq<EntryModel>>, k: int)
    requires
        0 <= k <= libraries.len(),
        shade_libraries(st, libraries.take(k)) is Err,
    ensures
        shade_libraries(st, libraries) == shade_libraries(st, libraries.take(k)),
    decreases libraries.len() - k,
{
    if k == libraries.len() {
        assert(libraries.take(k) =~= libraries);
    } else {
        assert(libraries.take(k + 1).drop_last() =~= libraries.take(k));
        lemma_shade_libraries_error(st, libraries, k + 1);
    }
}

impl ArchiveEntry {
    /// The entry as plain values.
    pub open spec fn view(&self) -> EntryModel {
        EntryModel { name: self.name@, is_dir: self.is_dir, data: self.data@ }
    }
}

impl JarEntry {
    /// The entry as plain values.
    pub open spec fn view(&self) -> JarItem {
        (self.name@, self.data@)
    }
}

/// A library's class-path entry.
pub fn class_path_entry_of(path: &str, windows: bool) -> (entry: String)
    ensures
        entry@ == class_path_entry(path@, windows),
{
    let v = chars_of(path);
    let file = relative_to_parent_of(v.as_slice(), windows);
    let mapped = map_char_in(file.as_slice(), '\\', '/');
    string_of(mapped.as_slice())
}

/// Whether `name` is a service descriptor.
pub fn is_service_entry(name: &str) -> (r: bool)
    ensures
        r == is_service_name(name@),
{
    let v = chars_of(name);
    let dir = chars_of(SERVICES_DIR);
    if !starts_with_chars(v.as_slice(), dir.as_slice()) {
        return false;
    }
    let rest = copy_range(v.as_slice(), dir.len(), v.len());
    let k = find_char_in(rest.as_slice(), '/');
    proof {
        assert(rest@ =~= name@.skip(SERVICES_DIR@.len() as int));
        lemma_find_char(rest@, '/');
        if k < rest.len() {
            assert(rest@[k as int] == '/');
        }
    }
    k == rest.len()
}

/// What shading does with an entry, given whether the signature expression
/// matches its name and whether the archive holds its name already.
pub fn classify_entry(name: &str, is_dir: bool, is_signature: bool, already_added: bool) -> (action:
    EntryAction)
    ensures
        action == entry_action(name@, is_dir, is_signature, already_added),
{
    if is_dir {
        EntryAction::SkipDirectory
    } else if is_service_entry(name) {
        EntryAction::MergeService
    } else if is_signature {
        EntryAction::DropSignature
    } else if already_added {
        EntryAction::DropDuplicate
    } else {
        EntryAction::Copy
    }
}

/// A copy of `bytes`.
pub fn copy_bytes(bytes: &Vec<u8>) -> (r: Vec<u8>)
    ensures
        r@ == bytes@,
{
    let mut r: Vec<u8> = Vec::new();
    let mut i: usize = 0;
    while i < bytes.len()
        invariant
            i <= bytes.len(),
            r@ == bytes@.take(i as int),
        decreases bytes.len() - i,
    {
        r.push(bytes[i]);
        i += 1;
    }
    proof {
        assert(bytes@.take(bytes.len() as int) =~= bytes@);
    }
    r
}

/// The class-path entries of the libraries at `paths`.
pub fn class_path_entries_of(paths: &Vec<String>, windows: bool) -> (entries: Vec<String>)
    ensures
        string_views(entries@) == class_path_entries(string_views(paths@), windows),
{
    let mut entries: Vec<String> = Vec::new();
    let mut i: usize = 0;
    while i < paths.len()
        invariant
            i <= paths.len(),
            string_views(entries@) == class_path_entries(string_views(paths@), windows).take(
                i as int,
            ),
        decreases paths.len() - i,
    {
        let entry = class_path_entry_of(paths[i].as_str(), windows);
        proof {
            let all = class_path_entries(string_views(paths@), windows);
            assert(string_views(entries@.push(entry)) =~= string_views(entries@).push(entry@));
            assert(all.take(i + 1) =~= all.take(i as int).push(all[i as int]));
        }
        entries.push(entry);
        i += 1;
    }
    proof {
        assert(class_path_entries(string_views(paths@), windows).take(paths.len() as int)
            =~= class_path_entries(string_views(paths@), windows));
    }
    entries
}

impl LaunchJar {
    /// The archive as plain values.
    pub open spec fn model(&self) -> JarModel {
        JarModel { items: jar_items(self.entries@), services: self.services@ }
    }

    /// Whether libraries are shaded into this archive.
    pub open spec fn shading(&self) -> bool {
        self.signature is Some
    }

    /// The signature expression, where there is one, is the one that
    /// recognises signature files.
    pub open spec fn wf(&self) -> bool {
        self.signature matches Some(e) ==> e.pattern() == SIGNATURE_PATTERN@
    }

    /// Starts a launch archive with its manifest and launch properties.
    /// Fails only where libraries are to be shaded and the signature
    /// expression is not accepted.
    pub fn begin(
        launch_main_class: &str,
        library_files: &Vec<String>,
        shade_libraries: bool,
        windows: bool,
    ) -> (r: Result<LaunchJar, FabricInstallError>)
        ensures
            match r {
                Ok(jar) => {
                    &&& jar.wf()
                    &&& well_kept(jar.model())
                    &&& jar.shading() == shade_libraries
                    &&& shade_libraries ==> pattern_compiles(SIGNATURE_PATTERN@)
                    &&& jar.model() == JarModel {
                        items: initial_items(
                            launch_main_class@,
                            string_views(library_files@),
                            shade_libraries,
                            windows,
                        ),
                        services: Seq::empty(),
                    }
                },
                Err(e) => {
                    &&& e is SignaturePattern
                    &&& shade_libraries
                    &&& !pattern_compiles(SIGNATURE_PATTERN@)
                },
            },
    {
        let signature = if shade_libraries {
            match Expression::compile(SIGNATURE_PATTERN) {
                Some(re) => Some(re),
                None => {
                    return Err(FabricInstallError::SignaturePattern);
                },
            }
        } else {
            None
        };
        let mut manifest = ManifestBuilder::new();
        if !shade_libraries {
            let names = class_path_entries_of(library_files, windows);
            let class_path = join_strings(&names, " ");
            let line = String::from_str("Class-Path: ").concat(class_path.as_str());
            manifest.add_line(line.as_str());
        }
        let main_line = String::from_str("Main-Class: ").concat(MAIN_CLASS_MANIFEST);
        manifest.add_line(main_line.as_str());
        proof {
            assert(manifest@ =~= manifest_lines(
                string_views(library_files@),
                shade_libraries,
                windows,
            ));
        }
        let text = manifest.build();
        let mut properties = String::from_str("launch.mainClass=").concat(launch_main_class);
        properties.push('\n');
        proof {
            assert(properties@ =~= "launch.mainClass="@ + launch_main_class@ + seq!['\n']);
        }
        let mut entries: Vec<JarEntry> = Vec::new();
        let first = JarEntry {
            name: String::from_str(MANIFEST_PATH),
            data: text.as_str().as_bytes_vec(),
        };
        let second = JarEntry {
            name: String::from_str(LAUNCH_PROPERTIES_PATH),
            data: properties.as_str().as_bytes_vec(),
        };
        proof {
            assert(jar_items(seq![first, second]) =~= seq![first@, second@]);
        }
        entries.push(first);
        entries.push(second);
        proof {
            assert(entries@ =~= seq![first, second]);
        }
        let jar = LaunchJar { entries, services: ServiceTable::new(), signature };
        proof {
            assert(jar.model().items =~= initial_items(
                launch_main_class@,
                string_views(library_files@),
                shade_libraries,
                windows,
            ));
            lemma_initial_well_kept(
                launch_main_class@,
                string_views(library_files@),
                shade_libraries,
                windows,
            );
        }
        Ok(jar)
    }

    /// Whether the archive holds an entry called `name`.
    pub fn has_entry(&self, name: &String) -> (r: bool)
        ensures
            r == has_item(self.model().items, name@),
    {
        let mut i: usize = 0;
        while i < self.entries.len()
            invariant
                i <= self.entries.len(),
                forall|j: int| 0 <= j < i ==> (#[trigger] self.model().items[j]).0 != name@,
            decreases self.entries.len() - i,
        {
            if self.entries[i].name == *name {
                proof {
                    assert(self.model().items[i as int].0 == name@);
                }
                return true;
            }
            i += 1;
        }
        false
    }

    /// Shades the entries of one library archive into this archive. Where
    /// an entry fails, the archive holds what the entries before it made
    /// of it.
    pub fn shade_archive(&mut self, entries: &Vec<ArchiveEntry>) -> (r: Result<
        (),
        FabricInstallError,
    >)
        requires
            old(self).wf(),
            old(self).shading(),
        ensures
            final(self).wf(),
            final(self).shading(),
            match shade_all(old(self).model(), entry_models(entries@)) {
                Ok(m) => r is Ok && final(self).model() == m,
                Err(name) => r matches Err(FabricInstallError::ZipEntryReadError(n)) && n@ == name,
            },
            r is Ok && well_kept(old(self).model()) ==> well_kept(final(self).model()),
            r is Err ==> exists|k: int|
                0 <= k < entries.len() && #[trigger] shade_all(
                    old(self).model(),
                    entry_models(entries@).take(k),
                ) == Ok::<JarModel, Seq<char>>(final(self).model()) && shade_all(
                    old(self).model(),
                    entry_models(entries@).take(k + 1),
                ) is Err,
    {
        let ghost start = self.model();
        proof {
            if well_kept(start) {
                lemma_shade_all(start, entry_models(entries@));
            }
        }
        let ghost all = entry_models(entries@);
        let mut i: usize = 0;
        while i < entries.len()
            invariant
                i <= entries.len(),
                self.wf(),
                self.shading(),
                start == old(self).model(),
                all == entry_models(entries@),
                shade_all(start, all.take(i as int)) == Ok::<JarModel, Seq<char>>(self.model()),
            decreases entries.len() - i,
        {
            let entry = &entries[i];
            let ghost before = self.model();
            proof {
                assert(all.take(i + 1).drop_last() =~= all.take(i as int));
                assert(all.take(i + 1).last() == entry@);
                assert(shade_all(start, all.take(i + 1)) == shade_step(before, entry@));
            }
            let is_signature = match &self.signature {
                Some(e) => e.is_match(entry.name.as_str()),
                None => false,
            };
            let already_added = self.has_entry(&entry.name);
            match classify_entry(entry.name.as_str(), entry.is_dir, is_signature, already_added) {
                EntryAction::MergeService => {
                    match utf8_text(entry.data.as_slice()) {
                        Some(text) => {
                            parse_service_definition(
                                entry.name.as_str(),
                                text.as_str(),
                                &mut self.services,
                            );
                        },
                        None => {
                            proof {
                                assert(shade_step(before, entry@) == Err::<JarModel, Seq<char>>(
                                    entry.name@,
                                ));
                                lemma_shade_all_error(start, all, i + 1);
                            }
                            return Err(
                                FabricInstallError::ZipEntryReadError(entry.name.clone()),
                            );
                        },
                    }
                },
                EntryAction::Copy => {
                    let copy = JarEntry { name: entry.name.clone(), data: copy_bytes(&entry.data) };
                    proof {
                        assert(jar_items(self.entries@.push(copy)) =~= jar_items(
                            self.entries@,
                        ).push(copy@));
                    }
                    self.entries.push(copy);
                },
                _ => {},
            }
            i += 1;
        }
        proof {
            assert(all.take(entries.len() as int) =~= all);
        }
        Ok(())
    }

    /// The finished archive: its entries, then the merged service
    /// descriptors.
    pub fn finish(self) -> (entries: Vec<JarEntry>)
        ensures
            jar_items(entries@) == finished_items(self.model()),
            well_kept(self.model()) ==> distinct_names(jar_items(entries@)),
    {
        proof {
            if well_kept(self.model()) {
                lemma_finished_distinct(self.model());
            }
        }
        let LaunchJar { entries, services, signature: _ } = self;
        let mut entries = entries;
        let ghost base = jar_items(entries@);
        let mut i: usize = 0;
        while i < services.files.len()
            invariant
                i <= services.files.len(),
                jar_items(entries@) == base + service_items(services@).take(i as int),
            decreases services.files.len() - i,
        {
            let file = &services.files[i];
            let mut text = String::new();
            let mut j: usize = 0;
            while j < file.providers.len()
                invariant
                    j <= file.providers.len(),
                    text@ == descriptor_text(string_views(file.providers@).take(j as int)),
                decreases file.providers.len() - j,
            {
                proof {
                    let ps = string_views(file.providers@);
                    assert(ps.take(j + 1).drop_last() =~= ps.take(j as int));
                    assert(ps.take(j + 1).last() == file.providers@[j as int]@);
                }
                text.append(file.providers[j].as_str());
                text.push('\n');
                j += 1;
            }
            proof {
                let ps = string_views(file.providers@);
                assert(ps.take(file.providers.len() as int) =~= ps);
            }
            let item = JarEntry { name: file.name.clone(), data: text.as_str().as_bytes_vec() };
            proof {
                let merged = service_items(services@);
                assert(services@[i as int] == file@);
                assert(item@ == merged[i as int]);
                assert(jar_items(entries@.push(item)) =~= jar_items(entries@).push(item@));
                assert(merged.take(i + 1) =~= merged.take(i as int).push(merged[i as int]));
                assert(base + merged.take(i as int).push(item@) =~= (base + merged.take(
                    i as int,
                )).push(item@));
            }
            entries.push(item);
            i += 1;
        }
        proof {
            assert(service_items(services@).take(services.files.len() as int) =~= service_items(
                services@,
            ));
        }
        entries
    }
}

/// Makes the launch archive for `launch_main_class`: the manifest, the
/// launch properties and, where `shade_libraries` is set, the entries of
/// every library.
pub fn make_launch_jar(
    launch_main_class: &str,
    library_files: &Vec<LibraryFile>,
    shade_libraries: bool,
    windows: bool,
) -> (r: Result<Vec<JarEntry>, FabricInstallError>)
    ensures
        shade_libraries && !pattern_compiles(SIGNATURE_PATTERN@) ==> r matches Err(
            FabricInstallError::SignaturePattern,
        ),
        !shade_libraries || pattern_compiles(SIGNATURE_PATTERN@) ==> match launch_jar_items(
            launch_main_class@,
            library_paths(library_files@),
            library_models(library_files@),
            shade_libraries,
            windows,
        ) {
            Ok(items) => r matches Ok(entries) && jar_items(entries@) == items,
            Err(name) => r matches Err(FabricInstallError::ZipEntryReadError(n)) && n@ == name,
        },
        r matches Ok(entries) ==> distinct_names(jar_items(entries@)),
{
    let mut paths: Vec<String> = Vec::new();
    let mut k: usize = 0;
    while k < library_files.len()
        invariant
            k <= library_files.len(),
            string_views(paths@) == library_paths(library_files@).take(k as int),
        decreases library_files.len() - k,
    {
        let path = library_files[k].path.clone();
        proof {
            let all = library_paths(library_files@);
            assert(string_views(paths@.push(path)) =~= string_views(paths@).push(path@));
            assert(all.take(k + 1) =~= all.take(k as int).push(all[k as int]));
        }
        paths.push(path);
        k += 1;
    }
    proof {
        assert(library_paths(library_files@).take(library_files.len() as int) =~= library_paths(
            library_files@,
        ));
    }
    let mut jar = match LaunchJar::begin(launch_main_class, &paths, shade_libraries, windows) {
        Ok(jar) => jar,
        Err(e) => {
            return Err(e);
        },
    };
    if shade_libraries {
        let ghost start = jar.model();
        let ghost all = library_models(library_files@);
        let mut i: usize = 0;
        while i < library_files.len()
            invariant
                i <= library_files.len(),
                jar.wf(),
                jar.shading(),
                well_kept(jar.model()),
                shade_libraries,
                pattern_compiles(SIGNATURE_PATTERN@),
                start == (JarModel {
                    items: initial_items(
                        launch_main_class@,
                        library_paths(library_files@),
                        shade_libraries,
                        windows,
                    ),
                    services: Seq::empty(),
                }),
                all == library_models(library_files@),
                crate::launch_jar::shade_libraries(start, all.take(i as int)) == Ok::<
                    JarModel,
                    Seq<char>,
                >(jar.model()),
            decreases library_files.len() - i,
        {
            proof {
                assert(all.take(i + 1).drop_last() =~= all.take(i as int));
                assert(all.take(i + 1).last() == entry_models(library_files@[i as int].entries@));
            }
            match jar.shade_archive(&library_files[i].entries) {
                Ok(()) => {},
                Err(e) => {
                    proof {
                        lemma_shade_libraries_error(start, all, i + 1);
                    }
                    return Err(e);
                },
            }
            i += 1;
        }
        proof {
            assert(all.take(library_files.len() as int) =~= all);
        }
    }
    Ok(jar.finish())
}

} // verus!
