//! The build matrix that a package manifest declares.

use crate::cargo_toml::workspace::{all_text, strings_of, text_values};
use crate::document::{parse_document, parsed_toml, Key, ManifestSyntaxError, Node};
use crate::features::FeatureSet;
use crate::pkg_build::{ParsedPackage, ParsedPackageView};
use crate::text::replaced;
use vstd::prelude::*;

verus! {

pub type BuildName = String;

pub type Feature = String;

/// What decides the compiled output of a build: the set of enabled
/// features, and whether the default features are on. Two settings with
/// the same fingerprint compile to the same artifact.
pub struct FingerprintView {
    pub features: Set<Seq<char>>,
    pub default_features: bool,
}

impl FingerprintView {
    /// The fingerprint of a build without explicit settings: no feature,
    /// default features on.
    pub open spec fn standard() -> FingerprintView {
        FingerprintView { features: Set::empty(), default_features: true }
    }
}

/// The settings of a build as mathematical values.
pub struct BuildSettingsView {
    pub features: Option<Set<Seq<char>>>,
    pub default_features: Option<bool>,
}

impl BuildSettingsView {
    /// The features that the build enables: none where no set is given.
    pub open spec fn feature_names(self) -> Set<Seq<char>> {
        match self.features {
            Some(names) => names,
            None => Set::empty(),
        }
    }

    /// Whether the default features are on: they are unless switched off.
    pub open spec fn default_features_enabled(self) -> bool {
        match self.default_features {
            Some(enabled) => enabled,
            None => true,
        }
    }

    /// The fingerprint of these settings.
    pub open spec fn fingerprint(self) -> FingerprintView {
        FingerprintView {
            features: self.feature_names(),
            default_features: self.default_features_enabled(),
        }
    }

    /// Settings that say nothing: the toolchain's own defaults apply.
    pub open spec fn unset() -> BuildSettingsView {
        BuildSettingsView { features: None, default_features: None }
    }
}

/// A build as mathematical values.
pub struct BuildView {
    pub name: Seq<char>,
    pub settings: BuildSettingsView,
}

impl BuildView {
    /// The standard build: no name, no explicit settings.
    pub open spec fn standard() -> BuildView {
        BuildView { name: Seq::empty(), settings: BuildSettingsView::unset() }
    }
}

/// The canonical form of build settings by which builds are deduplicated:
/// the feature set, which lists its names in one order only, and the
/// resolved default-features flag.
#[derive(Debug, PartialEq, Eq)]
pub struct BuildFingerprint {
    pub features: FeatureSet,
    pub default_features: bool,
}

impl View for BuildFingerprint {
    type V = FingerprintView;

    open spec fn view(&self) -> FingerprintView {
        FingerprintView { features: self.features@, default_features: self.default_features }
    }
}

impl BuildFingerprint {
    /// Whether two fingerprints stand for the same compiled output.
    pub fn same(&self, other: &BuildFingerprint) -> (r: bool)
        ensures
            r == (self@ == other@),
    {
        self.default_features == other.default_features && self.features.same(&other.features)
    }
}

/// The settings of one build.
#[derive(Debug, PartialEq, Eq)]
pub struct BuildSettings {
    /// Features to be enabled for this build.
    pub features: Option<FeatureSet>,
    /// Indicates if default features should be enabled for this build.
    /// Defaults to true.
    pub default_features: Option<bool>,
}

impl View for BuildSettings {
    type V = BuildSettingsView;

    open spec fn view(&self) -> BuildSettingsView {
        BuildSettingsView {
            features: match self.features {
                Some(set) => Some(set@),
                None => None,
            },
            default_features: self.default_features,
        }
    }
}

impl Clone for BuildSettings {
    fn clone(&self) -> (copy: BuildSettings)
        ensures
            copy@ == self@,
    {
        let features = match &self.features {
            Some(set) => Some(set.clone()),
            None => None,
        };
        BuildSettings { features, default_features: self.default_features }
    }
}

impl Default for BuildSettings {
    fn default() -> (settings: BuildSettings)
        ensures
            settings@ == BuildSettingsView::unset(),
    {
        BuildSettings { features: None, default_features: None }
    }
}

impl BuildSettings {
    /// The fingerprint of the settings.
    pub fn fingerprint(&self) -> (fingerprint: BuildFingerprint)
        ensures
            fingerprint@ == self@.fingerprint(),
    {
        let features = match &self.features {
            Some(set) => set.clone(),
            None => FeatureSet::new(),
        };
        let default_features = match self.default_features {
            Some(enabled) => enabled,
            None => true,
        };
        BuildFingerprint { features, default_features }
    }
}

/// A build entry that specifies the build of a package with optional
/// features.
#[derive(Debug, PartialEq, Eq)]
pub struct Build {
    /// Name appended to the build output file name.
    pub name: BuildName,
    pub settings: BuildSettings,
}

impl View for Build {
    type V = BuildView;

    open spec fn view(&self) -> BuildView {
        BuildView { name: self.name@, settings: self.settings@ }
    }
}

impl Clone for Build {
    fn clone(&self) -> (copy: Build)
        ensures
            copy@ == self@,
    {
        Build { name: self.name.clone(), settings: self.settings.clone() }
    }
}

impl Default for Build {
    /// The standard build.
    fn default() -> (build: Build)
        ensures
            build@ == BuildView::standard(),
    {
        Build { name: String::new(), settings: BuildSettings::default() }
    }
}

/// The views of a list of builds.
pub open spec fn build_views(builds: Seq<Build>) -> Seq<BuildView> {
    Seq::new(builds.len(), |i: int| builds[i]@)
}

/// Fingerprints agree exactly on settings whose feature sets are equal
/// as sets and whose default-features flags resolve to the same value.
pub proof fn lemma_fingerprint_equivalence(a: BuildSettingsView, b: BuildSettingsView)
    ensures
        a.fingerprint() == b.fingerprint() <==> (a.feature_names() == b.feature_names()
            && a.default_features_enabled() == b.default_features_enabled()),
{
}

/// The optimizer section of a package manifest as mathematical values.
pub struct OptimizerView {
    pub standard_build: Option<bool>,
    pub builds: Option<Seq<BuildView>>,
}

/// The metadata section of a package manifest as mathematical values.
pub struct OptimizerMetadataView {
    pub optimizer: Option<OptimizerView>,
}

/// The package section of a manifest as mathematical values.
pub struct PackageView {
    pub name: Seq<char>,
    pub metadata: Option<OptimizerMetadataView>,
}

/// A package manifest as mathematical values.
pub struct PackageCargoTomlView {
    pub package: PackageView,
}

/// The build-relevant part of a package manifest.
#[derive(Debug, PartialEq, Eq)]
pub struct PackageCargoToml {
    pub package: Package,
}

/// The package section of a manifest.
#[derive(Debug, PartialEq, Eq)]
pub struct Package {
    pub name: String,
    pub metadata: Option<OptimizerMetadata>,
}

/// The metadata section of a package manifest.
#[derive(Debug, PartialEq, Eq)]
pub struct OptimizerMetadata {
    pub optimizer: Option<Optimizer>,
}

/// The optimizer section of a package manifest: the build matrix.
#[derive(Debug, PartialEq, Eq)]
pub struct Optimizer {
    /// Indicates if a standard build (a build without explicit features)
    /// should be created. Defaults to true.
    pub standard_build: Option<bool>,
    /// A collection of named build configurations.
    pub builds: Option<Vec<Build>>,
}

impl View for Optimizer {
    type V = OptimizerView;

    open spec fn view(&self) -> OptimizerView {
        OptimizerView {
            standard_build: self.standard_build,
            builds: match self.builds {
                Some(list) => Some(build_views(list@)),
                None => None,
            },
        }
    }
}

impl Default for Optimizer {
    fn default() -> (optimizer: Optimizer)
        ensures
            optimizer@ == (OptimizerView { standard_build: None, builds: None }),
    {
        Optimizer { standard_build: None, builds: None }
    }
}

impl View for OptimizerMetadata {
    type V = OptimizerMetadataView;

    open spec fn view(&self) -> OptimizerMetadataView {
        OptimizerMetadataView {
            optimizer: match self.optimizer {
                Some(optimizer) => Some(optimizer@),
                None => None,
            },
        }
    }
}

impl View for Package {
    type V = PackageView;

    open spec fn view(&self) -> PackageView {
        PackageView {
            name: self.name@,
            metadata: match self.metadata {
                Some(metadata) => Some(metadata@),
                None => None,
            },
        }
    }
}

impl View for PackageCargoToml {
    type V = PackageCargoTomlView;

    open spec fn view(&self) -> PackageCargoTomlView {
        PackageCargoTomlView { package: self.package@ }
    }
}

/// What a table holds under a key that takes a boolean: a boolean or
/// nothing. Anything else is malformed, and `which` says so.
pub open spec fn decoded_flag(table: Node, key: Seq<char>, which: Key) -> Result<Option<bool>, Key> {
    match table.spec_get(key) {
        None => Ok(None),
        Some(Node::Boolean(flag)) => Ok(Some(flag)),
        Some(_) => Err(which),
    }
}

/// The `features` of a build entry: a list of strings, read as a set, or
/// nothing.
pub open spec fn decoded_features(entry: Node) -> Result<Option<Set<Seq<char>>>, Key> {
    match entry.spec_get("features"@) {
        None => Ok(None),
        Some(Node::Array(items)) => if all_text(items@) {
            Ok(Some(text_values(items@).to_set()))
        } else {
            Err(Key::Features)
        },
        Some(_) => Err(Key::Features),
    }
}

/// A build entry: a table with a `name` that is a string and not empty,
/// and with `features` and `default-features` where it sets them.
pub open spec fn decoded_build(entry: Node) -> Result<BuildView, Key> {
    if !(entry is Table) {
        Err(Key::Builds)
    } else {
        match entry.spec_get("name"@) {
            Some(Node::Text(name)) => if name@.len() == 0 {
                Err(Key::BuildName)
            } else {
                match decoded_features(entry) {
                    Err(key) => Err(key),
                    Ok(features) => match decoded_flag(
                        entry,
                        "default-features"@,
                        Key::DefaultFeatures,
                    ) {
                        Err(key) => Err(key),
                        Ok(default_features) => Ok(
                            BuildView {
                                name: name@,
                                settings: BuildSettingsView { features, default_features },
                            },
                        ),
                    },
                }
            },
            _ => Err(Key::BuildName),
        }
    }
}

/// The build entries of a list, in order. The first entry that is
/// malformed decides the error.
pub open spec fn decoded_builds(items: Seq<Node>) -> Result<Seq<BuildView>, Key>
    decreases items.len(),
{
    if items.len() == 0 {
        Ok(Seq::empty())
    } else {
        match decoded_builds(items.drop_last()) {
            Err(key) => Err(key),
            Ok(head) => match decoded_build(items.last()) {
                Err(key) => Err(key),
                Ok(build) => Ok(head.push(build)),
            },
        }
    }
}

/// The optimizer section: `standard-build` and `builds`, each where set.
pub open spec fn decoded_optimizer(section: Node) -> Result<OptimizerView, Key> {
    if !(section is Table) {
        Err(Key::Optimizer)
    } else {
        match decoded_flag(section, "standard-build"@, Key::StandardBuild) {
            Err(key) => Err(key),
            Ok(standard_build) => match section.spec_get("builds"@) {
                None => Ok(OptimizerView { standard_build, builds: None }),
                Some(Node::Array(items)) => match decoded_builds(items@) {
                    Err(key) => Err(key),
                    Ok(builds) => Ok(OptimizerView { standard_build, builds: Some(builds) }),
                },
                Some(_) => Err(Key::Builds),
            },
        }
    }
}

/// The metadata section: the optimizer section, where it has one.
pub open spec fn decoded_metadata(section: Node) -> Result<OptimizerMetadataView, Key> {
    if !(section is Table) {
        Err(Key::Metadata)
    } else {
        match section.spec_get("optimizer"@) {
            None => Ok(OptimizerMetadataView { optimizer: None }),
            Some(optimizer) => match decoded_optimizer(optimizer) {
                Err(key) => Err(key),
                Ok(view) => Ok(OptimizerMetadataView { optimizer: Some(view) }),
            },
        }
    }
}

/// What a document holds of a package: a `package` table with a `name`
/// that is a string, and its metadata where it has any. A document
/// without the `package` table is malformed.
pub open spec fn decoded_package(document: Node) -> Result<PackageCargoTomlView, Key> {
    match document.spec_get("package"@) {
        Some(Node::Table(entries)) => match Node::Table(entries).spec_get("name"@) {
            Some(Node::Text(name)) => match Node::Table(entries).spec_get("metadata"@) {
                None => Ok(
                    PackageCargoTomlView { package: PackageView { name: name@, metadata: None } },
                ),
                Some(metadata) => match decoded_metadata(metadata) {
                    Err(key) => Err(key),
                    Ok(view) => Ok(
                        PackageCargoTomlView {
                            package: PackageView { name: name@, metadata: Some(view) },
                        },
                    ),
                },
            },
            _ => Err(Key::Name),
        },
        _ => Err(Key::Package),
    }
}

/// The optimizer section of a manifest, or an empty one where the
/// manifest has none.
pub open spec fn optimizer_of(manifest: PackageCargoTomlView) -> OptimizerView {
    match manifest.package.metadata {
        Some(metadata) => match metadata.optimizer {
            Some(optimizer) => optimizer,
            None => OptimizerView { standard_build: None, builds: None },
        },
        None => OptimizerView { standard_build: None, builds: None },
    }
}

/// The package that a manifest describes: its name with every hyphen
/// replaced by an underscore, the standard build unless it is switched
/// off, and the declared builds, none where the manifest lists none.
pub open spec fn package_of(manifest: PackageCargoTomlView) -> ParsedPackageView {
    ParsedPackageView {
        name: replaced(manifest.package.name, '-', '_'),
        standard_build: match optimizer_of(manifest).standard_build {
            Some(enabled) => enabled,
            None => true,
        },
        builds: match optimizer_of(manifest).builds {
            Some(builds) => builds,
            None => Seq::empty(),
        },
    }
}

/// What `parse_toml` returns for a text that the TOML parser reads as
/// `document`.
pub open spec fn parsed_package(document: Node) -> Result<ParsedPackageView, Key> {
    match decoded_package(document) {
        Ok(manifest) => Ok(package_of(manifest)),
        Err(key) => Err(key),
    }
}

/// Reads a boolean that a table may hold under `key`.
fn read_flag(table: &Node, key: &str, which: Key) -> (res: Result<Option<bool>, Key>)
    ensures
        res == decoded_flag(*table, key@, which),
{
    match table.get(key) {
        None => Ok(None),
        Some(Node::Boolean(flag)) => Ok(Some(*flag)),
        Some(_) => Err(which),
    }
}

/// Reads one build entry.
fn read_build(entry: &Node) -> (res: Result<Build, Key>)
    ensures
        match decoded_build(*entry) {
            Ok(view) => res matches Ok(build) && build@ == view,
            Err(key) => res == Err::<Build, _>(key),
        },
{
    match entry {
        Node::Table(_) => {},
        _ => {
            return Err(Key::Builds);
        },
    }
    let name = match entry.get("name") {
        Some(Node::Text(name)) => name.clone(),
        _ => {
            return Err(Key::BuildName);
        },
    };
    if name.as_str().unicode_len() == 0 {
        return Err(Key::BuildName);
    }
    let features = match entry.get("features") {
        None => None,
        Some(Node::Array(items)) => match strings_of(items) {
            Some(names) => Some(FeatureSet::from_vec(names)),
            None => {
                return Err(Key::Features);
            },
        },
        Some(_) => {
            return Err(Key::Features);
        },
    };
    let default_features = match read_flag(entry, "default-features", Key::DefaultFeatures) {
        Ok(flag) => flag,
        Err(key) => {
            return Err(key);
        },
    };
    Ok(Build { name, settings: BuildSettings { features, default_features } })
}

/// Reads the build entries of a list.
fn read_builds(items: &Vec<Node>) -> (res: Result<Vec<Build>, Key>)
    ensures
        match decoded_builds(items@) {
            Ok(views) => res matches Ok(builds) && build_views(builds@) == views,
            Err(key) => res == Err::<Vec<Build>, _>(key),
        },
{
    let mut builds: Vec<Build> = Vec::new();
    let mut i: usize = 0;
    proof {
        assert(items@.take(0) =~= Seq::<Node>::empty());
        assert(build_views(builds@) =~= Seq::<BuildView>::empty());
    }
    while i < items.len()
        invariant
            i <= items.len(),
            decoded_builds(items@.take(i as int)) == Ok::<_, Key>(build_views(builds@)),
        decreases items.len() - i,
    {
        proof {
            assert(items@.take(i as int + 1).drop_last() =~= items@.take(i as int));
            assert(items@.take(i as int + 1).last() == items@[i as int]);
        }
        let ghost before = build_views(builds@);
        match read_build(&items[i]) {
            Ok(build) => {
                builds.push(build);
                proof {
                    assert(build_views(builds@) =~= before.push(build@));
                }
            },
            Err(key) => {
                proof {
                    lemma_error_stays(items@, i as int + 1, key);
                }
                return Err(key);
            },
        }
        i += 1;
    }
    proof {
        assert(items@.take(items.len() as int) =~= items@);
    }
    Ok(builds)
}

/// An error among the first `n` entries is the error of the whole list.
proof fn lemma_error_stays(items: Seq<Node>, n: int, key: Key)
    requires
        0 <= n <= items.len(),
        decoded_builds(items.take(n)) == Err::<Seq<BuildView>, _>(key),
    ensures
        decoded_builds(items) == Err::<Seq<BuildView>, _>(key),
    decreases items.len() - n,
{
    if n < items.len() {
        assert(items.take(n + 1).drop_last() =~= items.take(n));
        lemma_error_stays(items, n + 1, key);
    } else {
        assert(items.take(n) =~= items);
    }
}

/// Reads the optimizer section.
fn read_optimizer(section: &Node) -> (res: Result<Optimizer, Key>)
    ensures
        match decoded_optimizer(*section) {
            Ok(view) => res matches Ok(optimizer) && optimizer@ == view,
            Err(key) => res == Err::<Optimizer, _>(key),
        },
{
    match section {
        Node::Table(_) => {},
        _ => {
            return Err(Key::Optimizer);
        },
    }
    let standard_build = match read_flag(section, "standard-build", Key::StandardBuild) {
        Ok(flag) => flag,
        Err(key) => {
            return Err(key);
        },
    };
    match section.get("builds") {
        None => Ok(Optimizer { standard_build, builds: None }),
        Some(Node::Array(items)) => match read_builds(items) {
            Ok(builds) => Ok(Optimizer { standard_build, builds: Some(builds) }),
            Err(key) => Err(key),
        },
        Some(_) => Err(Key::Builds),
    }
}

/// Reads the metadata section.
fn read_metadata(section: &Node) -> (res: Result<OptimizerMetadata, Key>)
    ensures
        match decoded_metadata(*section) {
            Ok(view) => res matches Ok(metadata) && metadata@ == view,
            Err(key) => res == Err::<OptimizerMetadata, _>(key),
        },
{
    match section {
        Node::Table(_) => {},
        _ => {
            return Err(Key::Metadata);
        },
    }
    match section.get("optimizer") {
        None => Ok(OptimizerMetadata { optimizer: None }),
        Some(optimizer) => match read_optimizer(optimizer) {
            Ok(optimizer) => Ok(OptimizerMetadata { optimizer: Some(optimizer) }),
            Err(key) => Err(key),
        },
    }
}

/// Reads the package section of a manifest from its document.
pub fn read_package(document: &Node) -> (res: Result<PackageCargoToml, ManifestSyntaxError>)
    ensures
        match decoded_package(*document) {
            Ok(view) => res matches Ok(manifest) && manifest@ == view,
            Err(key) => res == Err::<PackageCargoToml, _>(ManifestSyntaxError::Malformed(key)),
        },
{
    let package = match document.get("package") {
        Some(package) => package,
        None => {
            return Err(ManifestSyntaxError::Malformed(Key::Package));
        },
    };
    match package {
        Node::Table(_) => {},
        _ => {
            return Err(ManifestSyntaxError::Malformed(Key::Package));
        },
    }
    let name = match package.get("name") {
        Some(Node::Text(name)) => name.clone(),
        _ => {
            return Err(ManifestSyntaxError::Malformed(Key::Name));
        },
    };
    let metadata = match package.get("metadata") {
        None => None,
        Some(section) => match read_metadata(section) {
            Ok(metadata) => Some(metadata),
            Err(key) => {
                return Err(ManifestSyntaxError::Malformed(key));
            },
        },
    };
    Ok(PackageCargoToml { package: Package { name, metadata } })
}

/// The name of a package as it stands in the names of its artifacts:
/// every hyphen replaced by an underscore.
pub fn normalized_name(name: &str) -> (normalized: String)
    ensures
        normalized@ == replaced(name@, '-', '_'),
{
    let n = name.unicode_len();
    let mut out = String::new();
    let mut i: usize = 0;
    while i < n
        invariant
            n == name@.len(),
            i <= n,
            out@ == replaced(name@, '-', '_').take(i as int),
        decreases n - i,
    {
        let ghost before = out@;
        if name.get_char(i) == '-' {
            proof {
                reveal_strlit("_");
            }
            out.append("_");
            proof {
                assert("_"@ =~= seq!['_']);
            }
        } else {
            out.append(name.substring_char(i, i + 1));
            proof {
                assert(name@.subrange(i as int, i as int + 1) =~= seq![name@[i as int]]);
            }
        }
        proof {
            assert(out@ =~= replaced(name@, '-', '_').take(i as int + 1));
        }
        i += 1;
    }
    proof {
        assert(replaced(name@, '-', '_').take(n as int) =~= replaced(name@, '-', '_'));
    }
    out
}

/// Settles what a package manifest leaves open: the standard build is on
/// unless the manifest switches it off, and a manifest without a build
/// list declares no build.
pub fn package_from(manifest: PackageCargoToml) -> (package: ParsedPackage)
    ensures
        package@ == package_of(manifest@),
{
    let name = normalized_name(manifest.package.name.as_str());
    let optimizer = match manifest.package.metadata {
        Some(metadata) => match metadata.optimizer {
            Some(optimizer) => optimizer,
            None => Optimizer::default(),
        },
        None => Optimizer::default(),
    };
    let standard_build = match optimizer.standard_build {
        Some(enabled) => enabled,
        None => true,
    };
    let builds = match optimizer.builds {
        Some(builds) => builds,
        None => {
            let empty: Vec<Build> = Vec::new();
            proof {
                assert(build_views(empty@) =~= Seq::<BuildView>::empty());
            }
            empty
        },
    };
    ParsedPackage { name, standard_build, builds }
}

/// Gets the artifact name and all the builds from the text of a package
/// manifest.
pub fn parse_toml(file: &str) -> (res: Result<ParsedPackage, ManifestSyntaxError>)
    ensures
        match parsed_toml(file@) {
            None => res matches Err(error) && error is Syntax,
            Some(document) => match parsed_package(document) {
                Ok(view) => res matches Ok(package) && package@ == view,
                Err(key) => res == Err::<ParsedPackage, _>(ManifestSyntaxError::Malformed(key)),
            },
        },
{
    let document = match parse_document(file) {
        Ok(document) => document,
        Err(error) => {
            return Err(error);
        },
    };
    match read_package(&document) {
        Ok(manifest) => Ok(package_from(manifest)),
        Err(error) => Err(error),
    }
}

/// What `parse_toml_at` returns for a text that the TOML parser reads as
/// `document`: the name for the artifacts, and the build list as the
/// manifest has it, `None` where it has none.
pub open spec fn named_builds(document: Node) -> Result<(Seq<char>, Option<Seq<BuildView>>), Key> {
    match decoded_package(document) {
        Ok(manifest) => Ok((replaced(manifest.package.name, '-', '_'), optimizer_of(manifest).builds)),
        Err(key) => Err(key),
    }
}

/// Gets the artifact name and the declared builds from the text of the
/// manifest of a package, and tells a manifest without a build list from
/// one with an empty list.
pub fn parse_toml_at(file: &str) -> (res: Result<(String, Option<Vec<Build>>), ManifestSyntaxError>)
    ensures
        match parsed_toml(file@) {
            None => res matches Err(error) && error is Syntax,
            Some(document) => match named_builds(document) {
                Ok(view) => res matches Ok(found) && found.0@ == view.0 && match found.1 {
                    Some(builds) => view.1 == Some(build_views(builds@)),
                    None => view.1 is None,
                },
                Err(key) => res == Err::<(String, Option<Vec<Build>>), _>(
                    ManifestSyntaxError::Malformed(key),
                ),
            },
        },
{
    let document = match parse_document(file) {
        Ok(document) => document,
        Err(error) => {
            return Err(error);
        },
    };
    let manifest = match read_package(&document) {
        Ok(manifest) => manifest,
        Err(error) => {
            return Err(error);
        },
    };
    let wasm_name = normalized_name(manifest.package.name.as_str());
    let builds = match manifest.package.metadata {
        Some(metadata) => match metadata.optimizer {
            Some(optimizer) => optimizer.builds,
            None => None,
        },
        None => None,
    };
    Ok((wasm_name, builds))
}

} // verus!
