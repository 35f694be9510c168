//! The loader's promotions document and its version descriptor.

use vstd::prelude::*;
use vstd::string::*;

verus! {

/// A JSON value of the `serde_json` crate, carried through unread.
#[verifier::external_type_specification]
#[verifier::external_body]
pub struct ExJsonValue(serde_json::Value);

/// The promotions document: promotion names with the loader version that
/// each stands for. Where a name occurs more than once, the first counts.
pub struct JsonVersions {
    pub promos: Vec<(String, String)>,
}

/// The wrapped form of a version descriptor, as an installer's install
/// profile holds it.
#[allow(non_snake_case)]
pub struct JsonInstallProfile {
    pub install: serde_json::Value,
    pub versionInfo: JsonDetails,
}

/// A loader's version descriptor.
#[allow(non_snake_case)]
pub struct JsonDetails {
    pub id: String,
    pub time: String,
    pub releaseTime: String,
    pub version_type: String,
    pub mainClass: String,
    pub inheritsFrom: Option<String>,
    pub logging: Option<serde_json::Value>,
    pub arguments: Option<JsonDetailsArguments>,
    pub libraries: Vec<JsonDetailsLibrary>,
    pub minecraftArguments: Option<String>,
}

/// New-style arguments of a version descriptor.
pub struct JsonDetailsArguments {
    pub game: Vec<String>,
    pub jvm: Option<Vec<String>>,
}

/// One library that a loader declares.
pub struct JsonDetailsLibrary {
    pub name: String,
    pub url: Option<String>,
    pub downloads: Option<JsonDetailsDownloads>,
    pub clientreq: Option<bool>,
}

/// The explicit download descriptor of a library.
pub struct JsonDetailsDownloads {
    pub artifact: JsonDetailsArtifact,
}

/// Where a library's archive lies and what it should hold.
pub struct JsonDetailsArtifact {
    pub path: String,
    pub url: String,
    pub sha1: String,
    pub size: usize,
}

/// A version descriptor in one of its two wire forms.
pub enum ForgeDescriptor {
    /// The flat form: the descriptor itself.
    Flat(JsonDetails),
    /// The wrapped form: the descriptor inside an install profile.
    Wrapped(JsonInstallProfile),
}

/// The value that the first entry named `key` holds.
pub open spec fn lookup(entries: Seq<(Seq<char>, Seq<char>)>, key: Seq<char>) -> Option<Seq<char>>
    decreases entries.len(),
{
    if entries.len() == 0 {
        None
    } else if entries[0].0 == key {
        Some(entries[0].1)
    } else {
        lookup(entries.drop_first(), key)
    }
}

/// The promotion name under which the newest loader for a game version is
/// listed.
pub open spec fn latest_key(minecraft_version: Seq<char>) -> Seq<char> {
    minecraft_version + "-latest"@
}

/// `lookup` finds nothing exactly when no entry has the key, and otherwise
/// gives the value of the first entry that has it.
pub proof fn lemma_lookup(entries: Seq<(Seq<char>, Seq<char>)>, key: Seq<char>)
    ensures
        lookup(entries, key) is None <==> forall|i: int|
            0 <= i < entries.len() ==> (#[trigger] entries[i]).0 != key,
        lookup(entries, key) matches Some(v) ==> exists|i: int|
            0 <= i < entries.len() && (#[trigger] entries[i]) == (key, v) && forall|j: int|
                0 <= j < i ==> (#[trigger] entries[j]).0 != key,
    decreases entries.len(),
{
    if entries.len() == 0 {
    } else if entries[0].0 == key {
        assert(entries[0] == (key, entries[0].1));
    } else {
        let t = entries.drop_first();
        lemma_lookup(t, key);
        assert forall|i: int| 0 <= i < t.len() implies t[i] == entries[i + 1] by {}
        if lookup(t, key) is None {
            assert forall|i: int| 0 <= i < entries.len() implies (#[trigger] entries[i]).0
                != key by {
                if i > 0 {
                    assert(t[i - 1] == entries[i]);
                }
            }
        } else {
            let v = lookup(t, key)->0;
            let i = choose|i: int|
                0 <= i < t.len() && (#[trigger] t[i]) == (key, v) && forall|j: int|
                    0 <= j < i ==> (#[trigger] t[j]).0 != key;
            assert(entries[i + 1] == (key, v));
            assert forall|j: int| 0 <= j < i + 1 implies (#[trigger] entries[j]).0 != key by {
                if j > 0 {
                    assert(t[j - 1] == entries[j]);
                }
            }
            assert(!(forall|k: int| 0 <= k < entries.len() ==> (#[trigger] entries[k]).0 != key));
        }
    }
}

impl JsonVersions {
    /// The promotions as plain text pairs, in order.
    pub open spec fn view(&self) -> Seq<(Seq<char>, Seq<char>)> {
        Seq::new(self.promos@.len(), |i: int| (self.promos@[i].0@, self.promos@[i].1@))
    }

    /// The loader version promoted as the newest for `minecraft_version`.
    #[must_use]
    pub fn get_forge_version(&self, minecraft_version: &str) -> (version: Option<String>)
        ensures
            match lookup(self@, latest_key(minecraft_version@)) {
                Some(v) => version matches Some(found) && found@ == v,
                None => version is None,
            },
    {
        let key = String::from_str(minecraft_version).concat("-latest");
        let mut i: usize = 0;
        proof {
            assert(self@.skip(0) =~= self@);
        }
        while i < self.promos.len()
            invariant
                i <= self.promos.len(),
                key@ == latest_key(minecraft_version@),
                lookup(self@, key@) == lookup(self@.skip(i as int), key@),
            decreases self.promos.len() - i,
        {
            proof {
                assert(self@.skip(i as int).drop_first() =~= self@.skip(i + 1));
                assert(self@.skip(i as int)[0] == self@[i as int]);
            }
            if self.promos[i].0 == key {
                return Some(self.promos[i].1.clone());
            }
            i += 1;
        }
        None
    }
}

impl ForgeDescriptor {
    /// The descriptor, whichever form it came in.
    pub fn into_details(self) -> (details: JsonDetails)
        ensures
            details == (match self {
                ForgeDescriptor::Flat(d) => d,
                ForgeDescriptor::Wrapped(p) => p.versionInfo,
            }),
    {
        match self {
            ForgeDescriptor::Flat(d) => d,
            ForgeDescriptor::Wrapped(p) => p.versionInfo,
        }
    }
}

} // verus!
