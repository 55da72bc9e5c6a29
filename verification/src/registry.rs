//! The schemas that the gateway validates against, by version.
//!
//! The registry is a map from versions to schemas. It holds its entries in a
//! vector in which no version occurs twice, and not in a hash map: of a hash
//! map whose keys are a struct with derived `Eq` and `Hash`, Verus knows
//! nothing, not even that a key is there after it was inserted.

use vstd::prelude::*;
use vstd::utf8::encode_utf8;
use crate::json::json_document;
use crate::schema::{schema_compiles, CompiledSchema, SchemaError};
use crate::version::{semver_of, SemVer};

verus! {

/// A registered schema with the version that it belongs to.
struct RegistryEntry {
    version: SemVer,
    schema: CompiledSchema,
}

/// The registered schemas. No version is registered twice.
pub struct SchemaRegistry {
    entries: Vec<RegistryEntry>,
}

/// Whether no two of the entries have the same version.
spec fn distinct_versions(entries: Seq<RegistryEntry>) -> bool {
    forall|i: int, j: int|
        0 <= i < j < entries.len() ==> (#[trigger] entries[i]).version != (
        #[trigger] entries[j]).version
}

/// Whether one of the entries has the version `version`.
spec fn has_version(entries: Seq<RegistryEntry>, version: SemVer) -> bool {
    exists|i: int| 0 <= i < entries.len() && (#[trigger] entries[i]).version == version
}

/// The position of an entry with the version `version`.
spec fn position_of(entries: Seq<RegistryEntry>, version: SemVer) -> int {
    choose|i: int| 0 <= i < entries.len() && (#[trigger] entries[i]).version == version
}

/// The schema documents of the entries, by version.
spec fn documents(entries: Seq<RegistryEntry>) -> Map<SemVer, Seq<char>> {
    Map::new(
        |version: SemVer| has_version(entries, version),
        |version: SemVer| entries[position_of(entries, version)].schema@,
    )
}

/// Whether `patch` is the greatest patch number among the versions of `versions`
/// that have the major number `major` and the minor number `minor`.
pub open spec fn is_latest_patch(versions: Set<SemVer>, major: u16, minor: u16, patch: u16) -> bool {
    &&& versions.contains(SemVer { major, minor, patch })
    &&& forall|other: u16| #[trigger]
        versions.contains(SemVer { major, minor, patch: other }) ==> other <= patch
}

/// The greatest patch number among the versions of `versions` that have the
/// major number `major` and the minor number `minor`; `None` where there is
/// no such version.
pub open spec fn latest_patch(versions: Set<SemVer>, major: u16, minor: u16) -> Option<u16> {
    if exists|patch: u16| is_latest_patch(versions, major, minor, patch) {
        Some(choose|patch: u16| is_latest_patch(versions, major, minor, patch))
    } else {
        None
    }
}

/// There is at most one latest patch, and `latest_patch` is it.
pub proof fn lemma_latest_patch_is(versions: Set<SemVer>, major: u16, minor: u16, patch: u16)
    requires
        is_latest_patch(versions, major, minor, patch),
    ensures
        latest_patch(versions, major, minor) == Some(patch),
{
    let chosen = choose|p: u16| is_latest_patch(versions, major, minor, p);
    assert(is_latest_patch(versions, major, minor, chosen));
    assert(versions.contains(SemVer { major, minor, patch: chosen }));
    assert(versions.contains(SemVer { major, minor, patch }));
}

/// Where no version with the given major and minor number is there,
/// `latest_patch` is `None`.
pub proof fn lemma_latest_patch_none(versions: Set<SemVer>, major: u16, minor: u16)
    requires
        forall|patch: u16| !versions.contains(SemVer { major, minor, patch }),
    ensures
        latest_patch(versions, major, minor) is None,
{
}

/// The latest patch is the patch of a version that is there.
pub proof fn lemma_latest_patch_registered(versions: Set<SemVer>, major: u16, minor: u16)
    requires
        latest_patch(versions, major, minor) is Some,
    ensures
        is_latest_patch(versions, major, minor, latest_patch(versions, major, minor).unwrap()),
{
}

/// Where a version with the given major and minor number is there, a latest
/// patch is there, and it is not below the patch of that version.
pub proof fn lemma_latest_patch_exists(versions: Set<SemVer>, major: u16, minor: u16, patch: u16)
    requires
        versions.contains(SemVer { major, minor, patch }),
    ensures
        latest_patch(versions, major, minor) is Some,
        latest_patch(versions, major, minor).unwrap() >= patch,
    decreases u16::MAX - patch,
{
    if forall|other: u16| #[trigger]
        versions.contains(SemVer { major, minor, patch: other }) ==> other <= patch {
        assert(is_latest_patch(versions, major, minor, patch));
        lemma_latest_patch_is(versions, major, minor, patch);
    } else {
        let other = choose|other: u16| #[trigger]
            versions.contains(SemVer { major, minor, patch: other }) && other > patch;
        lemma_latest_patch_exists(versions, major, minor, other);
    }
}

impl View for SchemaRegistry {
    type V = Map<SemVer, Seq<char>>;

    /// The registered schema documents, by version.
    closed spec fn view(&self) -> Map<SemVer, Seq<char>> {
        documents(self.entries@)
    }
}

impl SchemaRegistry {
    #[verifier::type_invariant]
    spec fn well_formed(self) -> bool {
        distinct_versions(self.entries@)
    }

    /// A registry without schemas.
    pub fn new() -> (registry: SchemaRegistry)
        ensures
            registry@ == Map::<SemVer, Seq<char>>::empty(),
    {
        let registry = SchemaRegistry { entries: Vec::new() };
        assert(registry@ =~= Map::<SemVer, Seq<char>>::empty());
        registry
    }

    /// The number of registered schemas.
    pub fn len(&self) -> (n: usize)
        ensures
            n == self@.dom().len(),
            self@.dom().finite(),
    {
        proof {
            use_type_invariant(self);
            lemma_documents_len(self.entries@);
        }
        self.entries.len()
    }

    /// The position of the entry of `version`, if it is registered.
    fn find(&self, version: &SemVer) -> (r: Option<usize>)
        ensures
            match r {
                Some(i) => i < self.entries@.len() && self.entries@[i as int].version == *version,
                None => !has_version(self.entries@, *version),
            },
    {
        let mut i: usize = 0;
        while i < self.entries.len()
            invariant
                i <= self.entries@.len(),
                forall|k: int| 0 <= k < i ==> (#[trigger] self.entries@[k]).version != *version,
            decreases self.entries@.len() - i,
        {
            if self.entries[i].version == *version {
                return Some(i);
            }
            i = i + 1;
        }
        None
    }

    /// Whether a schema is registered for `version`.
    pub fn contains(&self, version: &SemVer) -> (r: bool)
        ensures
            r == self@.contains_key(*version),
    {
        self.find(version).is_some()
    }

    /// The schema that is registered for `version`.
    pub fn get(&self, version: &SemVer) -> (r: Option<&CompiledSchema>)
        ensures
            match r {
                Some(schema) => self@.contains_key(*version) && self@[*version] == schema@,
                None => !self@.contains_key(*version),
            },
    {
        match self.find(version) {
            Some(i) => {
                proof {
                    use_type_invariant(self);
                    lemma_position_of(self.entries@, i as int);
                }
                Some(&self.entries[i].schema)
            },
            None => None,
        }
    }

    /// Registers `schema` for `version`, in place of what was registered for
    /// it before.
    pub fn insert(&mut self, version: SemVer, schema: CompiledSchema)
        ensures
            final(self)@ == old(self)@.insert(version, schema@),
    {
        proof {
            use_type_invariant(&*self);
        }
        let found: Option<usize> = self.find(&version);
        let mut taken = SchemaRegistry { entries: Vec::new() };
        std::mem::swap(self, &mut taken);
        let SchemaRegistry { entries } = taken;
        let mut entries: Vec<RegistryEntry> = entries;
        let ghost before = entries@;
        let entry = RegistryEntry { version, schema };
        match found {
            Some(i) => {
                entries[i] = entry;
                proof {
                    lemma_documents_update(before, i as int, entry);
                }
            },
            None => {
                entries.push(entry);
                proof {
                    lemma_documents_push(before, entry);
                }
            },
        }
        *self = SchemaRegistry { entries };
    }

    /// The greatest patch number that is registered with the major number
    /// `major` and the minor number `minor`.
    pub fn latest_patch(&self, major: u16, minor: u16) -> (r: Option<u16>)
        ensures
            r == latest_patch(self@.dom(), major, minor),
    {
        let mut best: Option<u16> = None;
        let mut i: usize = 0;
        while i < self.entries.len()
            invariant
                i <= self.entries@.len(),
                match best {
                    Some(patch) => exists|k: int|
                        0 <= k < i && (#[trigger] self.entries@[k]).version == (SemVer {
                            major,
                            minor,
                            patch,
                        }),
                    None => true,
                },
                forall|k: int|
                    0 <= k < i && (#[trigger] self.entries@[k]).version.major == major
                        && self.entries@[k].version.minor == minor ==> best is Some
                        && self.entries@[k].version.patch <= best.unwrap(),
            decreases self.entries@.len() - i,
        {
            let version: SemVer = self.entries[i].version;
            if version.major == major && version.minor == minor {
                let better: bool = match best {
                    Some(patch) => version.patch > patch,
                    None => true,
                };
                if better {
                    best = Some(version.patch);
                }
            }
            i = i + 1;
        }
        proof {
            let versions = self@.dom();
            match best {
                Some(patch) => {
                    assert forall|other: u16| #[trigger]
                        versions.contains(SemVer { major, minor, patch: other }) implies other
                        <= patch by {
                        let k = position_of(self.entries@, SemVer { major, minor, patch: other });
                        assert(self.entries@[k].version.patch == other);
                    }
                    lemma_latest_patch_is(versions, major, minor, patch);
                },
                None => {
                    assert forall|patch: u16| !versions.contains(
                        SemVer { major, minor, patch },
                    ) by {
                        if versions.contains(SemVer { major, minor, patch }) {
                            let k = position_of(self.entries@, SemVer { major, minor, patch });
                            assert(self.entries@[k].version.major == major);
                        }
                    }
                    lemma_latest_patch_none(versions, major, minor);
                },
            }
        }
        best
    }
}

/// With distinct versions, the entry at a position is the entry of its version.
proof fn lemma_position_of(entries: Seq<RegistryEntry>, i: int)
    requires
        distinct_versions(entries),
        0 <= i < entries.len(),
    ensures
        has_version(entries, entries[i].version),
        position_of(entries, entries[i].version) == i,
        documents(entries).contains_key(entries[i].version),
        documents(entries)[entries[i].version] == entries[i].schema@,
{
    let p = position_of(entries, entries[i].version);
    assert(entries[p].version == entries[i].version);
    if p < i {
        assert(entries[p].version != entries[i].version);
    } else if i < p {
        assert(entries[i].version != entries[p].version);
    }
}

/// Appending an entry of a new version registers its schema.
proof fn lemma_documents_push(entries: Seq<RegistryEntry>, entry: RegistryEntry)
    requires
        distinct_versions(entries),
        !has_version(entries, entry.version),
    ensures
        distinct_versions(entries.push(entry)),
        documents(entries.push(entry)) == documents(entries).insert(entry.version, entry.schema@),
{
    let longer = entries.push(entry);
    assert forall|i: int, j: int| 0 <= i < j < longer.len() implies (#[trigger] longer[i]).version
        != (#[trigger] longer[j]).version by {
        if j == entries.len() {
            assert(entries[i].version != entry.version);
        } else {
            assert(entries[i].version != entries[j].version);
        }
    }
    let expected = documents(entries).insert(entry.version, entry.schema@);
    assert forall|version: SemVer| #[trigger]
        documents(longer).contains_key(version) == expected.contains_key(version) by {
        if has_version(entries, version) {
            let k = position_of(entries, version);
            assert(longer[k].version == version);
        }
        if has_version(longer, version) && version != entry.version {
            let k = position_of(longer, version);
            assert(entries[k].version == version);
        }
        if version == entry.version {
            assert(longer[entries.len() as int].version == version);
        }
    }
    assert forall|version: SemVer| #[trigger]
        documents(longer).contains_key(version) implies documents(longer)[version]
        == expected[version] by {
        let k = position_of(longer, version);
        lemma_position_of(longer, k);
        if version != entry.version {
            lemma_position_of(entries, k);
        }
    }
    assert(documents(longer) =~= expected);
}

/// Replacing the entry of a version registers the new schema for it.
proof fn lemma_documents_update(entries: Seq<RegistryEntry>, i: int, entry: RegistryEntry)
    requires
        distinct_versions(entries),
        0 <= i < entries.len(),
        entries[i].version == entry.version,
    ensures
        distinct_versions(entries.update(i, entry)),
        documents(entries.update(i, entry)) == documents(entries).insert(
            entry.version,
            entry.schema@,
        ),
{
    let changed = entries.update(i, entry);
    assert forall|a: int, b: int| 0 <= a < b < changed.len() implies (#[trigger] changed[a]).version
        != (#[trigger] changed[b]).version by {
        assert(entries[a].version != entries[b].version);
    }
    let expected = documents(entries).insert(entry.version, entry.schema@);
    assert forall|version: SemVer| #[trigger]
        documents(changed).contains_key(version) == expected.contains_key(version) by {
        if has_version(entries, version) {
            let k = position_of(entries, version);
            assert(changed[k].version == version);
        }
        if has_version(changed, version) {
            let k = position_of(changed, version);
            assert(entries[k].version == version);
        }
    }
    assert forall|version: SemVer| #[trigger]
        documents(changed).contains_key(version) implies documents(changed)[version]
        == expected[version] by {
        let k = position_of(changed, version);
        lemma_position_of(changed, k);
        if version != entry.version {
            lemma_position_of(entries, k);
        }
    }
    assert(documents(changed) =~= expected);
}

/// With distinct versions, there are as many registered versions as entries.
proof fn lemma_documents_len(entries: Seq<RegistryEntry>)
    requires
        distinct_versions(entries),
    ensures
        documents(entries).dom().finite(),
        documents(entries).dom().len() == entries.len(),
    decreases entries.len(),
{
    if entries.len() == 0 {
        assert(documents(entries).dom() =~= Set::<SemVer>::empty());
    } else {
        let shorter = entries.drop_last();
        let entry = entries.last();
        assert forall|i: int, j: int| 0 <= i < j < shorter.len() implies (
        #[trigger] shorter[i]).version != (#[trigger] shorter[j]).version by {
            assert(entries[i].version != entries[j].version);
        }
        if has_version(shorter, entry.version) {
            let k = position_of(shorter, entry.version);
            assert(entries[k].version != entries[entries.len() - 1].version);
        }
        lemma_documents_len(shorter);
        lemma_documents_push(shorter, entry);
        assert(shorter.push(entry) =~= entries);
        assert(documents(entries).dom() =~= documents(shorter).dom().insert(entry.version));
    }
}

/// A schema as the configuration gives it: the text of its version, and the
/// text of the schema document.
pub struct SchemaSource {
    pub version: String,
    pub schema: String,
}

/// What a [`SchemaSource`] holds.
pub struct SchemaSourceView {
    pub version: Seq<char>,
    pub schema: Seq<char>,
}

impl View for SchemaSource {
    type V = SchemaSourceView;

    open spec fn view(&self) -> SchemaSourceView {
        SchemaSourceView { version: self.version@, schema: self.schema@ }
    }
}

/// What is wrong with a configured schema.
#[derive(Debug, Clone, Copy, PartialEq, Eq, Structural)]
pub enum RegistryErrorKind {
    /// The text of the version is no version.
    InvalidVersion,
    /// The text of the schema is no JSON document.
    InvalidJson,
    /// The document is no valid schema.
    InvalidSchema,
}

/// The first configured schema that cannot be registered, and why.
#[derive(Debug, Clone, Copy, PartialEq, Eq, Structural)]
pub struct RegistryError {
    /// The position of the schema among the configured ones.
    pub index: usize,
    pub kind: RegistryErrorKind,
}

/// The version and the schema document that the source `source` registers, or
/// why it registers none.
pub open spec fn registration(source: SchemaSourceView) -> Result<
    (SemVer, Seq<char>),
    RegistryErrorKind,
> {
    match semver_of(encode_utf8(source.version)) {
        None => Err(RegistryErrorKind::InvalidVersion),
        Some(version) => match json_document(source.schema) {
            None => Err(RegistryErrorKind::InvalidJson),
            Some(document) => if schema_compiles(document) {
                Ok((version, document))
            } else {
                Err(RegistryErrorKind::InvalidSchema)
            },
        },
    }
}

/// The schemas that the sources `sources` register, one after the other, so
/// that a later source replaces an earlier one of the same version; or the
/// first source that registers none.
pub open spec fn registrations(sources: Seq<SchemaSourceView>) -> Result<
    Map<SemVer, Seq<char>>,
    RegistryError,
>
    decreases sources.len(),
{
    if sources.len() == 0 {
        Ok(Map::empty())
    } else {
        match registrations(sources.drop_last()) {
            Err(error) => Err(error),
            Ok(registered) => match registration(sources.last()) {
                Ok((version, document)) => Ok(registered.insert(version, document)),
                Err(kind) => Err(RegistryError { index: (sources.len() - 1) as usize, kind }),
            },
        }
    }
}

/// What each of the sources holds.
pub open spec fn source_views(sources: Seq<SchemaSource>) -> Seq<SchemaSourceView> {
    Seq::new(sources.len(), |i: int| sources[i]@)
}

impl RegistryError {
    /// The message of the error.
    pub fn message(&self) -> (text: String)
        ensures
            text@ == (match self.kind {
                RegistryErrorKind::InvalidVersion =>
                    "Invalid SemVer, most likely an incorrect configuration file!"@,
                RegistryErrorKind::InvalidJson => "Invalid Json schema"@,
                RegistryErrorKind::InvalidSchema => "Invalid Json schema"@,
            }),
    {
        match self.kind {
            RegistryErrorKind::InvalidVersion =>
                "Invalid SemVer, most likely an incorrect configuration file!".to_owned(),
            RegistryErrorKind::InvalidJson => "Invalid Json schema".to_owned(),
            RegistryErrorKind::InvalidSchema => "Invalid Json schema".to_owned(),
        }
    }
}

/// Builds the registry of the configured schemas. All of them have to be
/// valid: the first that is not is the error.
pub fn read_schemas(sources: &Vec<SchemaSource>) -> (r: Result<SchemaRegistry, RegistryError>)
    ensures
        match r {
            Ok(registry) => registrations(source_views(sources@)) == Ok::<
                Map<SemVer, Seq<char>>,
                RegistryError,
            >(registry@),
            Err(error) => registrations(source_views(sources@)) == Err::<
                Map<SemVer, Seq<char>>,
                RegistryError,
            >(error),
        },
{
    let ghost views = source_views(sources@);
    let mut registry: SchemaRegistry = SchemaRegistry::new();
    let mut i: usize = 0;
    assert(views.take(0) =~= Seq::<SchemaSourceView>::empty());
    while i < sources.len()
        invariant
            i <= sources@.len(),
            views == source_views(sources@),
            registrations(views.take(i as int)) == Ok::<Map<SemVer, Seq<char>>, RegistryError>(
                registry@,
            ),
        decreases sources@.len() - i,
    {
        let source: &SchemaSource = &sources[i];
        proof {
            let longer = views.take(i + 1);
            assert(longer.drop_last() =~= views.take(i as int));
            assert(longer.last() == source@);
            if registrations(longer) is Err {
                lemma_registrations_prefix(views, i + 1);
            }
        }
        let version: SemVer = match SemVer::parse(source.version.as_str()) {
            Ok(version) => version,
            Err(_) => {
                return Err(RegistryError { index: i, kind: RegistryErrorKind::InvalidVersion });
            },
        };
        let schema: CompiledSchema = match CompiledSchema::compile(source.schema.as_str()) {
            Ok(schema) => schema,
            Err(SchemaError::InvalidJson) => {
                return Err(RegistryError { index: i, kind: RegistryErrorKind::InvalidJson });
            },
            Err(SchemaError::InvalidSchema) => {
                return Err(RegistryError { index: i, kind: RegistryErrorKind::InvalidSchema });
            },
        };
        registry.insert(version, schema);
        i = i + 1;
    }
    assert(views.take(i as int) =~= views);
    Ok(registry)
}

/// The first source that registers nothing is the error of every longer
/// sequence of sources.
proof fn lemma_registrations_prefix(sources: Seq<SchemaSourceView>, n: int)
    requires
        0 <= n <= sources.len(),
        registrations(sources.take(n)) is Err,
    ensures
        registrations(sources) == registrations(sources.take(n)),
    decreases sources.len() - n,
{
    if n == sources.len() {
        assert(sources.take(n) =~= sources);
    } else {
        let longer = sources.take(n + 1);
        assert(longer.drop_last() =~= sources.take(n));
        lemma_registrations_prefix(sources, n + 1);
    }
}

} // verus!
