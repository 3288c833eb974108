//! Package descriptors: the fields a package must declare and how they are read
//! out of descriptor text. The grammar of the text is that of the `sorbet_kvp`
//! crate, which does the parsing.

use vstd::prelude::*;
use vstd::string::StringExecFns;
use crate::platform::Platform;
use crate::text::{same_chars, to_chars};

verus! {

/// The fields every descriptor must have, in the order in which they are
/// looked for.
#[derive(Clone, Copy, Debug, PartialEq, Eq, Structural)]
pub enum Field {
    Name,
    Version,
    Author,
    UnixDeps,
    WinDeps,
    Commands,
    Uninstall,
}

impl Field {
    /// The key under which the field stands in a descriptor.
    pub open spec fn key(self) -> Seq<char> {
        match self {
            Field::Name => "name"@,
            Field::Version => "version"@,
            Field::Author => "author"@,
            Field::UnixDeps => "unix_deps"@,
            Field::WinDeps => "win_deps"@,
            Field::Commands => "commands"@,
            Field::Uninstall => "uninstall"@,
        }
    }

    /// The key under which the field stands in a descriptor.
    pub fn name(self) -> (name: &'static str)
        ensures
            name@ == self.key(),
    {
        match self {
            Field::Name => "name",
            Field::Version => "version",
            Field::Author => "author",
            Field::UnixDeps => "unix_deps",
            Field::WinDeps => "win_deps",
            Field::Commands => "commands",
            Field::Uninstall => "uninstall",
        }
    }
}

/// A parsed descriptor: the value of each required field.
#[derive(Clone, Debug, PartialEq, Eq)]
pub struct PackageDescriptor {
    pub name: String,
    pub version: String,
    pub author: String,
    pub unix_deps: String,
    pub win_deps: String,
    pub commands: String,
    pub uninstall: String,
}

/// What a descriptor holds, as plain texts.
pub ghost struct DescriptorFields {
    pub name: Seq<char>,
    pub version: Seq<char>,
    pub author: Seq<char>,
    pub unix_deps: Seq<char>,
    pub win_deps: Seq<char>,
    pub commands: Seq<char>,
    pub uninstall: Seq<char>,
}

impl DescriptorFields {
    /// The command list that installs what the package depends on.
    pub open spec fn dependencies(self, platform: Platform) -> Seq<char> {
        match platform {
            Platform::Windows => self.win_deps,
            Platform::Unix => self.unix_deps,
        }
    }
}

impl View for PackageDescriptor {
    type V = DescriptorFields;

    open spec fn view(&self) -> DescriptorFields {
        DescriptorFields {
            name: self.name@,
            version: self.version@,
            author: self.author@,
            unix_deps: self.unix_deps@,
            win_deps: self.win_deps@,
            commands: self.commands@,
            uninstall: self.uninstall@,
        }
    }
}

impl PackageDescriptor {
    /// The command list that installs what the package depends on, for the
    /// given platform.
    pub fn dependencies(&self, platform: Platform) -> (list: &str)
        ensures
            list@ == self@.dependencies(platform),
    {
        match platform {
            Platform::Windows => self.win_deps.as_str(),
            Platform::Unix => self.unix_deps.as_str(),
        }
    }
}

/// Why descriptor text was not accepted.
#[derive(Clone, Copy, Debug, PartialEq, Eq, Structural)]
pub enum DescriptorError {
    /// A required field is absent.
    MissingField(Field),
}

impl DescriptorError {
    /// The wording of the error, which names the missing field.
    pub open spec fn wording(self) -> Seq<char> {
        match self {
            DescriptorError::MissingField(field) => "Package has no "@ + field.key() + "!"@,
        }
    }

    /// The error in words.
    pub fn message(&self) -> (text: String)
        ensures
            text@ == self.wording(),
    {
        match self {
            DescriptorError::MissingField(field) => {
                let mut text = String::from_str("Package has no ");
                text.append(field.name());
                text.append("!");
                text
            },
        }
    }
}

/// An identifier refers to a descriptor file when it ends in `.srb` or in
/// `.sorbet`.
pub open spec fn names_descriptor_file(identifier: Seq<char>) -> bool {
    ".srb"@.is_suffix_of(identifier) || ".sorbet"@.is_suffix_of(identifier)
}

/// Calls `sorbet_kvp::sorbet::check_file_extension` on a copy of `path`. That
/// function answers whether the path ends in `.srb` or in `.sorbet`, which is
/// what the contract states.
#[verifier::external_body]
fn sorbet_extension(path: &str) -> (found: bool)
    ensures
        found == names_descriptor_file(path@),
{
    sorbet_kvp::sorbet::check_file_extension(path.to_string())
}

/// Whether `identifier` is itself a reference to a descriptor file and not a
/// bare name.
pub fn is_descriptor_reference(identifier: &str) -> (found: bool)
    ensures
        found == names_descriptor_file(identifier@),
{
    sorbet_extension(identifier)
}

/// The key-value pairs that `sorbet_kvp::sorbet::parse` reads out of `text`.
pub uninterp spec fn sorbet_fields(text: Seq<char>) -> Map<Seq<char>, Seq<char>>;

/// `entries` lists the pairs of `fields`, each key once, in any order.
pub open spec fn lists(
    entries: Seq<(Seq<char>, Seq<char>)>,
    fields: Map<Seq<char>, Seq<char>>,
) -> bool {
    &&& forall|i: int|
        0 <= i < entries.len() ==> fields.contains_pair((#[trigger] entries[i]).0, entries[i].1)
    &&& forall|key: Seq<char>| #[trigger]
        fields.contains_key(key) ==> exists|i: int|
            0 <= i < entries.len() && (#[trigger] entries[i]).0 == key
    &&& forall|i: int, j: int|
        0 <= i < j < entries.len() ==> (#[trigger] entries[i]).0 != (#[trigger] entries[j]).0
}

/// Calls `sorbet_kvp::sorbet::parse` on a copy of `text` and hands out the
/// pairs of the map it returns. The parser reads the whole text without
/// failing; what it cannot read it reports on standard output and leaves out.
/// The contract names the map and says that the vector lists its pairs.
#[verifier::external_body]
fn sorbet_entries(text: &str) -> (entries: Vec<(String, String)>)
    ensures
        lists(entries.deep_view(), sorbet_fields(text@)),
{
    sorbet_kvp::sorbet::parse(text.to_string()).into_iter().collect()
}

/// The value of the first entry whose key is `key`.
pub open spec fn value_of(entries: Seq<(Seq<char>, Seq<char>)>, key: Seq<char>) -> Option<
    Seq<char>,
>
    decreases entries.len(),
{
    if entries.len() == 0 {
        None
    } else if entries.first().0 == key {
        Some(entries.first().1)
    } else {
        value_of(entries.drop_first(), key)
    }
}

/// The mapping that a list of entries stands for: each key with the value of
/// its first entry.
pub open spec fn fields_of(entries: Seq<(Seq<char>, Seq<char>)>) -> Map<Seq<char>, Seq<char>> {
    Map::new(
        |key: Seq<char>| value_of(entries, key) is Some,
        |key: Seq<char>| value_of(entries, key)->0,
    )
}

/// The first required field that `fields` lacks.
pub open spec fn first_missing(fields: Map<Seq<char>, Seq<char>>) -> Option<Field> {
    if !fields.contains_key(Field::Name.key()) {
        Some(Field::Name)
    } else if !fields.contains_key(Field::Version.key()) {
        Some(Field::Version)
    } else if !fields.contains_key(Field::Author.key()) {
        Some(Field::Author)
    } else if !fields.contains_key(Field::UnixDeps.key()) {
        Some(Field::UnixDeps)
    } else if !fields.contains_key(Field::WinDeps.key()) {
        Some(Field::WinDeps)
    } else if !fields.contains_key(Field::Commands.key()) {
        Some(Field::Commands)
    } else if !fields.contains_key(Field::Uninstall.key()) {
        Some(Field::Uninstall)
    } else {
        None
    }
}

/// The descriptor that `fields` makes: the values of the required fields, or
/// the first of them that is missing.
pub open spec fn descriptor_of(fields: Map<Seq<char>, Seq<char>>) -> Result<
    DescriptorFields,
    DescriptorError,
> {
    match first_missing(fields) {
        Some(field) => Err(DescriptorError::MissingField(field)),
        None => Ok(
            DescriptorFields {
                name: fields[Field::Name.key()],
                version: fields[Field::Version.key()],
                author: fields[Field::Author.key()],
                unix_deps: fields[Field::UnixDeps.key()],
                win_deps: fields[Field::WinDeps.key()],
                commands: fields[Field::Commands.key()],
                uninstall: fields[Field::Uninstall.key()],
            },
        ),
    }
}

/// Every required field stands in `fields`.
pub open spec fn is_complete(fields: Map<Seq<char>, Seq<char>>) -> bool {
    forall|field: Field| fields.contains_key(#[trigger] field.key())
}

/// The place of a field in the order in which the fields are looked for.
pub open spec fn rank(field: Field) -> int {
    match field {
        Field::Name => 0,
        Field::Version => 1,
        Field::Author => 2,
        Field::UnixDeps => 3,
        Field::WinDeps => 4,
        Field::Commands => 5,
        Field::Uninstall => 6,
    }
}

/// A descriptor is made exactly when every required field is there. When one
/// is not, the field that the error names is missing and every field before
/// it is there.
pub proof fn lemma_descriptor_of(fields: Map<Seq<char>, Seq<char>>)
    ensures
        descriptor_of(fields) is Ok <==> is_complete(fields),
        forall|field: Field|
            descriptor_of(fields) == Err::<DescriptorFields, DescriptorError>(
                DescriptorError::MissingField(field),
            ) ==> !fields.contains_key(#[trigger] field.key()),
        forall|field: Field, earlier: Field|
            #![trigger rank(field), earlier.key()]
            descriptor_of(fields) == Err::<DescriptorFields, DescriptorError>(
                DescriptorError::MissingField(field),
            ) && rank(earlier) < rank(field) ==> fields.contains_key(earlier.key()),
{
    if first_missing(fields) is None {
        assert forall|field: Field| fields.contains_key(#[trigger] field.key()) by {
            match field {
                Field::Name => {},
                Field::Version => {},
                Field::Author => {},
                Field::UnixDeps => {},
                Field::WinDeps => {},
                Field::Commands => {},
                Field::Uninstall => {},
            }
        }
    } else {
        assert(!fields.contains_key(first_missing(fields)->0.key()));
    }
}

/// The views of a parsing result.
pub open spec fn outcome_view(outcome: Result<PackageDescriptor, DescriptorError>) -> Result<
    DescriptorFields,
    DescriptorError,
> {
    match outcome {
        Ok(descriptor) => Ok(descriptor@),
        Err(error) => Err(error),
    }
}

/// A list of a mapping's pairs stands for that mapping.
pub proof fn lemma_listing_stands_for(
    entries: Seq<(Seq<char>, Seq<char>)>,
    fields: Map<Seq<char>, Seq<char>>,
)
    requires
        lists(entries, fields),
    ensures
        fields_of(entries) == fields,
{
    assert forall|key: Seq<char>|
        (#[trigger] fields.contains_key(key) ==> value_of(entries, key) == Some(fields[key])) && (
        !fields.contains_key(key) ==> value_of(entries, key) is None) by {
        lemma_value_of(entries, key);
        if value_of(entries, key) is Some {
            let j = choose|j: int|
                0 <= j < entries.len() && (#[trigger] entries[j]).0 == key && value_of(
                    entries,
                    key,
                ) == Some(entries[j].1);
            assert(fields.contains_pair(entries[j].0, entries[j].1));
        } else if fields.contains_key(key) {
            let i = choose|i: int| 0 <= i < entries.len() && (#[trigger] entries[i]).0 == key;
            assert(entries[i].0 == key);
        }
    }
    assert(fields_of(entries) =~= fields);
}

/// `value_of` finds an entry exactly when one has the key, and then returns
/// the value of the first such entry.
pub proof fn lemma_value_of(entries: Seq<(Seq<char>, Seq<char>)>, key: Seq<char>)
    ensures
        value_of(entries, key) is Some <==> exists|i: int|
            0 <= i < entries.len() && (#[trigger] entries[i]).0 == key,
        value_of(entries, key) is Some ==> exists|j: int|
            0 <= j < entries.len() && (#[trigger] entries[j]).0 == key && value_of(entries, key)
                == Some(entries[j].1),
    decreases entries.len(),
{
    if entries.len() == 0 {
    } else if entries.first().0 == key {
        assert(entries[0].0 == key);
    } else {
        let rest = entries.drop_first();
        lemma_value_of(rest, key);
        if value_of(rest, key) is Some {
            let j = choose|j: int|
                0 <= j < rest.len() && (#[trigger] rest[j]).0 == key && value_of(rest, key)
                    == Some(rest[j].1);
            assert(entries[j + 1] == rest[j]);
        }
        if exists|i: int| 0 <= i < entries.len() && (#[trigger] entries[i]).0 == key {
            let i = choose|i: int| 0 <= i < entries.len() && (#[trigger] entries[i]).0 == key;
            assert(rest[i - 1] == entries[i]);
        }
    }
}

/// The value of the first entry of `entries` whose key is `key`.
pub fn find_value(entries: &Vec<(String, String)>, key: &str) -> (found: Option<String>)
    ensures
        match found {
            Some(value) => value_of(entries.deep_view(), key@) == Some(value@),
            None => value_of(entries.deep_view(), key@) is None,
        },
{
    let wanted = to_chars(key);
    let mut i: usize = 0;
    assert(entries.deep_view().skip(0) =~= entries.deep_view());
    while i < entries.len()
        invariant
            i <= entries.len(),
            wanted@ == key@,
            value_of(entries.deep_view(), key@) == value_of(
                entries.deep_view().skip(i as int),
                key@,
            ),
        decreases entries.len() - i,
    {
        let ghost rest = entries.deep_view().skip(i as int);
        proof {
            assert(rest.first() == entries.deep_view()[i as int]);
            assert(rest.drop_first() =~= entries.deep_view().skip(i + 1));
        }
        let entry = &entries[i];
        if same_chars(to_chars(entry.0.as_str()).as_slice(), wanted.as_slice()) {
            return Some(entry.1.clone());
        }
        i += 1;
    }
    None
}

/// Makes a descriptor out of the entries read from descriptor text: every
/// required field must be there, and the first one that is not is reported.
pub fn descriptor_from_entries(entries: &Vec<(String, String)>) -> (outcome: Result<
    PackageDescriptor,
    DescriptorError,
>)
    ensures
        outcome_view(outcome) == descriptor_of(fields_of(entries.deep_view())),
{
    let name = match find_value(entries, Field::Name.name()) {
        Some(value) => value,
        None => { return Err(DescriptorError::MissingField(Field::Name)); },
    };
    let version = match find_value(entries, Field::Version.name()) {
        Some(value) => value,
        None => { return Err(DescriptorError::MissingField(Field::Version)); },
    };
    let author = match find_value(entries, Field::Author.name()) {
        Some(value) => value,
        None => { return Err(DescriptorError::MissingField(Field::Author)); },
    };
    let unix_deps = match find_value(entries, Field::UnixDeps.name()) {
        Some(value) => value,
        None => { return Err(DescriptorError::MissingField(Field::UnixDeps)); },
    };
    let win_deps = match find_value(entries, Field::WinDeps.name()) {
        Some(value) => value,
        None => { return Err(DescriptorError::MissingField(Field::WinDeps)); },
    };
    let commands = match find_value(entries, Field::Commands.name()) {
        Some(value) => value,
        None => { return Err(DescriptorError::MissingField(Field::Commands)); },
    };
    let uninstall = match find_value(entries, Field::Uninstall.name()) {
        Some(value) => value,
        None => { return Err(DescriptorError::MissingField(Field::Uninstall)); },
    };
    Ok(PackageDescriptor { name, version, author, unix_deps, win_deps, commands, uninstall })
}

/// Reads a descriptor out of its text. Succeeds exactly when the text declares
/// every required field; otherwise the error names the first missing one.
pub fn parse_package(contents: &str) -> (outcome: Result<PackageDescriptor, DescriptorError>)
    ensures
        outcome_view(outcome) == descriptor_of(sorbet_fields(contents@)),
{
    let entries = sorbet_entries(contents);
    proof {
        lemma_listing_stands_for(entries.deep_view(), sorbet_fields(contents@));
    }
    descriptor_from_entries(&entries)
}

} // verus!
