//! The metadata assembler: the versions of the package and of its companion
//! packages, merged with the metadata of the task into one document, the
//! artifact that holds the document, and the directive that hands the artifact
//! to the linker.

use vstd::prelude::*;
use crate::config::{project, entries_view, task_json, task_metadata, ConfigEntry};
use crate::json::{json_empty_object, json_of, json_set, json_string, json_text, json_to_string, Json};
use crate::text::ends_with;

verus! {

/// The name of the artifact in the output directory of the build.
pub const METADATA_FILENAME: &'static str = "package_metadata.json";

/// A resolved package: its name and its version.
#[derive(Debug, Clone)]
pub struct PackageFact {
    pub name: String,
    pub version: String,
}

impl View for PackageFact {
    type V = (Seq<char>, Seq<char>);

    open spec fn view(&self) -> (Seq<char>, Seq<char>) {
        (self.name@, self.version@)
    }
}

/// The resolved packages as pairs of name and version.
pub open spec fn facts_view(facts: Seq<PackageFact>) -> Seq<(Seq<char>, Seq<char>)> {
    facts.map_values(|f: PackageFact| f@)
}

/// The texts of a sequence of strings.
pub open spec fn lines_view(lines: Seq<String>) -> Seq<Seq<char>> {
    lines.map_values(|s: String| s@)
}

/// The version of the first package of that name, if there is one.
pub open spec fn version_of(facts: Seq<(Seq<char>, Seq<char>)>, name: Seq<char>) -> Option<
    Seq<char>,
>
    decreases facts.len(),
{
    if facts.len() == 0 {
        None
    } else if facts.first().0 == name {
        Some(facts.first().1)
    } else {
        version_of(facts.drop_first(), name)
    }
}

/// The top-level document of a package.
pub ghost struct PackageMetadata {
    pub name: Seq<char>,
    pub version: Seq<char>,
    pub uapi_version: Option<Seq<char>>,
    pub libshield_version: Option<Seq<char>>,
    pub task: Json,
}

/// The document of the package `name`, where the facts give its version: the
/// companion versions are those of the packages `uapi` and `shield`.
pub open spec fn resolve(
    name: Seq<char>,
    facts: Seq<(Seq<char>, Seq<char>)>,
    task: Json,
) -> Option<PackageMetadata> {
    match version_of(facts, name) {
        Some(version) => Some(
            PackageMetadata {
                name,
                version,
                uapi_version: version_of(facts, "uapi"@),
                libshield_version: version_of(facts, "shield"@),
                task,
            },
        ),
        None => None,
    }
}

/// The members of a document that every package has.
pub open spec fn fixed_members(name: Seq<char>, version: Seq<char>) -> Map<Seq<char>, Json> {
    Map::<Seq<char>, Json>::empty().insert("type"@, Json::Text("outpost application"@)).insert(
        "os"@,
        Json::Text("outpost"@),
    ).insert("name"@, Json::Text(name)).insert("version"@, Json::Text(version))
}

/// `members` with the string member `key`, where there is a value for it.
pub open spec fn with_optional(
    members: Map<Seq<char>, Json>,
    key: Seq<char>,
    value: Option<Seq<char>>,
) -> Map<Seq<char>, Json> {
    match value {
        Some(v) => members.insert(key, Json::Text(v)),
        None => members,
    }
}

/// The JSON object of a package document.
pub open spec fn package_json(package: PackageMetadata) -> Json {
    Json::Object(
        with_optional(
            with_optional(
                fixed_members(package.name, package.version),
                "uapi_version"@,
                package.uapi_version,
            ),
            "libshield_version"@,
            package.libshield_version,
        ).insert("task"@, package.task),
    )
}

/// The warning for a companion package without a version.
pub open spec fn missing_warning(found: Option<Seq<char>>, warning: Seq<char>) -> Seq<Seq<char>> {
    if found is None {
        seq![warning]
    } else {
        Seq::empty()
    }
}

/// The warnings for the companion packages that the facts do not hold: for
/// `uapi` first, then for `shield`.
pub open spec fn companion_warnings(facts: Seq<(Seq<char>, Seq<char>)>) -> Seq<Seq<char>> {
    missing_warning(version_of(facts, "uapi"@), "cargo::warning=uapi dependency not found"@)
        + missing_warning(
        version_of(facts, "shield"@),
        "cargo::warning=shield dependency not found"@,
    )
}

/// The content of the artifact that holds the serialised document `body`.
pub open spec fn artifact_text(body: Seq<char>) -> Seq<char> {
    "--package-metadata='"@ + body + "'"@
}

/// Whether the linker is a GCC front end, which takes linker arguments behind
/// `-Wl,`.
pub open spec fn is_gcc(linker: Option<Seq<char>>) -> bool {
    linker is Some && "gcc"@.is_suffix_of(linker->Some_0)
}

/// The link argument that refers to the artifact at `path`.
pub open spec fn link_arg_text(linker: Option<Seq<char>>, path: Seq<char>) -> Seq<char> {
    if is_gcc(linker) {
        "-Wl,@"@ + path
    } else {
        "@"@ + path
    }
}

/// The directive that adds the link argument to every binary target.
pub open spec fn directive_text(linker: Option<Seq<char>>, path: Seq<char>) -> Seq<char> {
    "cargo::rustc-link-arg-bins="@ + link_arg_text(linker, path)
}

/// The view of an optional string slice.
pub open spec fn opt_view(s: Option<&str>) -> Option<Seq<char>> {
    match s {
        Some(t) => Some(t@),
        None => None,
    }
}

/// Looks up the version of the first package called `name`.
pub fn get_version(name: &str, facts: &Vec<PackageFact>) -> (version: Option<String>)
    ensures
        match version {
            Some(v) => version_of(facts_view(facts@), name@) == Some(v@),
            None => version_of(facts_view(facts@), name@) is None,
        },
{
    let ghost all = facts_view(facts@);
    let wanted = String::from_str(name);
    let mut i: usize = 0;
    proof {
        assert(all.skip(0) =~= all);
    }
    while i < facts.len()
        invariant
            i <= facts.len(),
            all == facts_view(facts@),
            wanted@ == name@,
            version_of(all, name@) == version_of(all.skip(i as int), name@),
        decreases facts.len() - i,
    {
        proof {
            assert(all.skip(i as int).drop_first() =~= all.skip(i + 1));
            assert(all.skip(i as int).first() == facts@[i as int]@);
        }
        if facts[i].name == wanted {
            return Some(facts[i].version.clone());
        }
        i += 1;
    }
    None
}

/// A package document with the warnings that came up while it was assembled.
pub struct Assembly {
    pub document: serde_json::Value,
    pub warnings: Vec<String>,
}

/// Assembles the document of the package `name` from the facts and the
/// metadata of its task. There is a document exactly where the facts hold the
/// package. Each companion package that they do not hold gives a warning, and
/// its member is left out.
pub fn assemble(name: &str, facts: &Vec<PackageFact>, task: serde_json::Value) -> (result: Option<
    Assembly,
>)
    ensures
        match result {
            Some(a) => {
                &&& resolve(name@, facts_view(facts@), json_of(task)) matches Some(package)
                &&& json_of(a.document) == package_json(package)
                &&& lines_view(a.warnings@) == companion_warnings(facts_view(facts@))
            },
            None => resolve(name@, facts_view(facts@), json_of(task)) is None,
        },
{
    let version = match get_version(name, facts) {
        Some(v) => v,
        None => {
            return None;
        },
    };
    let uapi_version = get_version("uapi", facts);
    let shield_version = get_version("shield", facts);
    let mut document = json_empty_object();
    let mut warnings: Vec<String> = Vec::new();
    json_set(&mut document, String::from_str("type"), json_string("outpost application"));
    json_set(&mut document, String::from_str("os"), json_string("outpost"));
    json_set(&mut document, String::from_str("name"), json_string(name));
    json_set(&mut document, String::from_str("version"), json_string(version.as_str()));
    match uapi_version {
        Some(v) => {
            json_set(&mut document, String::from_str("uapi_version"), json_string(v.as_str()));
        },
        None => {
            warnings.push(String::from_str("cargo::warning=uapi dependency not found"));
        },
    }
    match shield_version {
        Some(v) => {
            json_set(&mut document, String::from_str("libshield_version"), json_string(v.as_str()));
        },
        None => {
            warnings.push(String::from_str("cargo::warning=shield dependency not found"));
        },
    }
    json_set(&mut document, String::from_str("task"), task);
    proof {
        assert(lines_view(warnings@) =~= companion_warnings(facts_view(facts@)));
    }
    Some(Assembly { document, warnings })
}

/// Wraps the serialised document `body` into the content of the artifact.
pub fn wrap_text(body: &str) -> (artifact: String)
    ensures
        artifact@ == artifact_text(body@),
{
    let mut artifact = String::from_str("--package-metadata='");
    artifact.append(body);
    artifact.append("'");
    artifact
}

/// Serialises a document and wraps it into the content of the artifact.
pub fn wrap_artifact(document: &serde_json::Value) -> (artifact: String)
    ensures
        artifact@ == artifact_text(json_text(json_of(*document))),
{
    let body = json_to_string(document);
    wrap_text(body.as_str())
}

/// Builds the link argument that refers to the artifact at `path`: behind
/// `-Wl,@` where the linker's name ends in `gcc`, behind a bare `@` otherwise
/// and where no linker is named.
pub fn link_arg(linker: Option<&str>, path: &str) -> (arg: String)
    ensures
        arg@ == link_arg_text(opt_view(linker), path@),
{
    let gcc = match linker {
        Some(l) => ends_with(l, "gcc"),
        None => false,
    };
    let mut arg = if gcc {
        String::from_str("-Wl,@")
    } else {
        String::from_str("@")
    };
    arg.append(path);
    arg
}

/// Builds the directive that adds the link argument for the artifact at `path`
/// to every binary target.
pub fn link_directive(linker: Option<&str>, path: &str) -> (directive: String)
    ensures
        directive@ == directive_text(opt_view(linker), path@),
{
    let arg = link_arg(linker, path);
    let mut directive = String::from_str("cargo::rustc-link-arg-bins=");
    directive.append(arg.as_str());
    directive
}

/// What one run of the generator hands to the build: the content of the
/// artifact, the warnings, and the directive.
pub struct PackageOutput {
    pub artifact: String,
    pub warnings: Vec<String>,
    pub directive: String,
}

/// The texts of an output.
pub ghost struct OutputText {
    pub artifact: Seq<char>,
    pub warnings: Seq<Seq<char>>,
    pub directive: Seq<char>,
}

impl View for PackageOutput {
    type V = OutputText;

    open spec fn view(&self) -> OutputText {
        OutputText {
            artifact: self.artifact@,
            warnings: lines_view(self.warnings@),
            directive: self.directive@,
        }
    }
}

/// The output for the package `name`, as a function of the facts, the
/// configuration entries, the path of the artifact and the linker: nothing
/// where the facts do not hold the package.
pub open spec fn package_output(
    name: Seq<char>,
    facts: Seq<(Seq<char>, Seq<char>)>,
    entries: Seq<(Seq<char>, Seq<char>)>,
    path: Seq<char>,
    linker: Option<Seq<char>>,
) -> Option<OutputText> {
    match resolve(name, facts, task_json(project(entries))) {
        Some(package) => Some(
            OutputText {
                artifact: artifact_text(json_text(package_json(package))),
                warnings: companion_warnings(facts),
                directive: directive_text(linker, path),
            },
        ),
        None => None,
    }
}

/// Generates the metadata of the package `name`: the artifact to be written at
/// `metadata_filepath`, the warnings for the missing companion packages, and
/// the directive for the linker named by `linker`.
pub fn gen_package_metadata(
    name: &str,
    facts: &Vec<PackageFact>,
    entries: &Vec<ConfigEntry>,
    metadata_filepath: &str,
    linker: Option<&str>,
) -> (output: Option<PackageOutput>)
    ensures
        match output {
            Some(o) => Some(o@),
            None => None,
        } == package_output(
            name@,
            facts_view(facts@),
            entries_view(entries@),
            metadata_filepath@,
            opt_view(linker),
        ),
{
    let task = task_metadata(entries);
    match assemble(name, facts, task) {
        Some(assembly) => {
            let artifact = wrap_artifact(&assembly.document);
            let directive = link_directive(linker, metadata_filepath);
            Some(PackageOutput { artifact, warnings: assembly.warnings, directive })
        },
        None => None,
    }
}

/// The version that `version_of` finds is that of the first package of the
/// name; it finds none exactly where no package has the name.
pub proof fn lemma_version_of_first(facts: Seq<(Seq<char>, Seq<char>)>, name: Seq<char>)
    ensures
        match version_of(facts, name) {
            Some(v) => exists|i: int|
                {
                    &&& 0 <= i < facts.len()
                    &&& (#[trigger] facts[i]).0 == name
                    &&& facts[i].1 == v
                    &&& forall|j: int| 0 <= j < i ==> (#[trigger] facts[j]).0 != name
                },
            None => forall|i: int| 0 <= i < facts.len() ==> (#[trigger] facts[i]).0 != name,
        },
    decreases facts.len(),
{
    if facts.len() > 0 {
        let rest = facts.drop_first();
        lemma_version_of_first(rest, name);
        if facts.first().0 == name {
            assert(facts[0].0 == name);
        } else {
            match version_of(rest, name) {
                Some(v) => {
                    let i = choose|i: int|
                        {
                            &&& 0 <= i < rest.len()
                            &&& (#[trigger] rest[i]).0 == name
                            &&& rest[i].1 == v
                            &&& forall|j: int| 0 <= j < i ==> (#[trigger] rest[j]).0 != name
                        };
                    assert(facts[i + 1] == rest[i]);
                    assert forall|j: int| 0 <= j < i + 1 implies (#[trigger] facts[j]).0
                        != name by {
                        if j > 0 {
                            assert(facts[j] == rest[j - 1]);
                        }
                    }
                },
                None => {
                    assert forall|i: int| 0 <= i < facts.len() implies (#[trigger] facts[i]).0
                        != name by {
                        if i > 0 {
                            assert(facts[i] == rest[i - 1]);
                        }
                    }
                },
            }
        }
    }
}

/// Whether every package of the facts has a name and a version that are not
/// empty.
pub open spec fn facts_complete(facts: Seq<(Seq<char>, Seq<char>)>) -> bool {
    forall|i: int|
        0 <= i < facts.len() ==> (#[trigger] facts[i]).0.len() > 0 && facts[i].1.len() > 0
}

/// A document resolved from complete facts has a name and a version that are
/// not empty, and so has each companion version that it holds.
pub proof fn lemma_resolved_is_complete(
    name: Seq<char>,
    facts: Seq<(Seq<char>, Seq<char>)>,
    task: Json,
)
    requires
        facts_complete(facts),
        resolve(name, facts, task) is Some,
    ensures
        ({
            let package = resolve(name, facts, task)->Some_0;
            &&& package.name.len() > 0
            &&& package.version.len() > 0
            &&& package.uapi_version matches Some(v) ==> v.len() > 0
            &&& package.libshield_version matches Some(v) ==> v.len() > 0
        }),
{
    lemma_version_of_first(facts, name);
    lemma_version_of_first(facts, "uapi"@);
    lemma_version_of_first(facts, "shield"@);
}

/// The members of a package document: the two fixed ones, the name, the
/// version and the task always, a companion version exactly where the package
/// has one, and no other.
pub proof fn lemma_document_members(package: PackageMetadata)
    ensures
        package_json(package) is Object,
        ({
            let members = package_json(package)->Object_0;
            &&& members.contains_key("type"@) && members["type"@] == Json::Text(
                "outpost application"@,
            )
            &&& members.contains_key("os"@) && members["os"@] == Json::Text("outpost"@)
            &&& members.contains_key("name"@) && members["name"@] == Json::Text(package.name)
            &&& members.contains_key("version"@) && members["version"@] == Json::Text(
                package.version,
            )
            &&& members.contains_key("task"@) && members["task"@] == package.task
            &&& members.contains_key("uapi_version"@) == (package.uapi_version is Some)
            &&& package.uapi_version matches Some(v) ==> members["uapi_version"@] == Json::Text(v)
            &&& members.contains_key("libshield_version"@) == (package.libshield_version is Some)
            &&& package.libshield_version matches Some(v) ==> members["libshield_version"@]
                == Json::Text(v)
            &&& forall|key: Seq<char>| #[trigger]
                members.contains_key(key) ==> key == "type"@ || key == "os"@ || key == "name"@
                    || key == "version"@ || key == "task"@ || key == "uapi_version"@ || key
                    == "libshield_version"@
        }),
{
    reveal_strlit("type");
    reveal_strlit("os");
    reveal_strlit("name");
    reveal_strlit("version");
    reveal_strlit("task");
    reveal_strlit("uapi_version");
    reveal_strlit("libshield_version");
    assert("type"@.len() == 4 && "name"@.len() == 4 && "task"@.len() == 4);
    assert("os"@.len() == 2 && "version"@.len() == 7);
    assert("uapi_version"@.len() == 12 && "libshield_version"@.len() == 17);
    assert("type"@[1] == 'y' && "name"@[1] == 'a' && "task"@[1] == 'a');
    assert("name"@[0] == 'n' && "task"@[0] == 't');
}

/// Facts that hold the package but neither companion give a document without
/// companion versions, and one warning for each companion.
pub proof fn lemma_missing_companions(
    name: Seq<char>,
    facts: Seq<(Seq<char>, Seq<char>)>,
    task: Json,
)
    requires
        version_of(facts, name) is Some,
        version_of(facts, "uapi"@) is None,
        version_of(facts, "shield"@) is None,
    ensures
        resolve(name, facts, task) == Some(
            PackageMetadata {
                name,
                version: version_of(facts, name)->Some_0,
                uapi_version: None,
                libshield_version: None,
                task,
            },
        ),
        package_json(resolve(name, facts, task)->Some_0) == Json::Object(
            fixed_members(name, version_of(facts, name)->Some_0).insert("task"@, task),
        ),
        companion_warnings(facts) == seq![
            "cargo::warning=uapi dependency not found"@,
            "cargo::warning=shield dependency not found"@,
        ],
{
    assert(companion_warnings(facts) =~= seq![
        "cargo::warning=uapi dependency not found"@,
        "cargo::warning=shield dependency not found"@,
    ]);
}

/// The artifact is the serialised document between the opening
/// `--package-metadata='` and the closing `'`: with both taken off, the
/// document is left as it was.
pub proof fn lemma_artifact_unwraps(body: Seq<char>)
    ensures
        "--package-metadata='"@.is_prefix_of(artifact_text(body)),
        "'"@.is_suffix_of(artifact_text(body)),
        artifact_text(body).subrange(
            "--package-metadata='"@.len() as int,
            artifact_text(body).len() - "'"@.len(),
        ) == body,
{
    let opening = "--package-metadata='"@;
    let closing = "'"@;
    let whole = artifact_text(body);
    assert(whole.subrange(0, opening.len() as int) =~= opening);
    assert(whole.subrange(whole.len() - closing.len(), whole.len() as int) =~= closing);
    assert(whole.subrange(opening.len() as int, whole.len() - closing.len()) =~= body);
}

/// The link argument ends in the path of the artifact, and what stands before
/// the path is `-Wl,@` for a linker whose name ends in `gcc` and a bare `@`
/// for every other, and for none.
pub proof fn lemma_link_arg_marks_path(linker: Option<Seq<char>>, path: Seq<char>)
    ensures
        path.is_suffix_of(link_arg_text(linker, path)),
        link_arg_text(linker, path).take(link_arg_text(linker, path).len() - path.len()) == (
        if linker is Some && "gcc"@.is_suffix_of(linker->Some_0) {
            "-Wl,@"@
        } else {
            "@"@
        }),
{
    let arg = link_arg_text(linker, path);
    let mark = arg.take(arg.len() - path.len());
    assert(arg.subrange(arg.len() - path.len(), arg.len() as int) =~= path);
    if is_gcc(linker) {
        assert(mark =~= "-Wl,@"@);
    } else {
        assert(mark =~= "@"@);
    }
}

/// Two runs on inputs of the same texts give the same artifact, the same
/// warnings and the same directive.
pub proof fn lemma_output_determined(
    name: Seq<char>,
    path: Seq<char>,
    linker: Option<Seq<char>>,
    facts_a: Seq<PackageFact>,
    entries_a: Seq<ConfigEntry>,
    facts_b: Seq<PackageFact>,
    entries_b: Seq<ConfigEntry>,
)
    requires
        facts_a.len() == facts_b.len(),
        forall|i: int| 0 <= i < facts_a.len() ==> (#[trigger] facts_a[i])@ == facts_b[i]@,
        entries_a.len() == entries_b.len(),
        forall|i: int| 0 <= i < entries_a.len() ==> (#[trigger] entries_a[i])@ == entries_b[i]@,
    ensures
        package_output(name, facts_view(facts_a), entries_view(entries_a), path, linker)
            == package_output(name, facts_view(facts_b), entries_view(entries_b), path, linker),
{
    assert(facts_view(facts_a) =~= facts_view(facts_b));
    assert(entries_view(entries_a) =~= entries_view(entries_b));
}

} // verus!
