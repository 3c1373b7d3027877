//! The open key-typed parameter bag attached to each message, and the
//! command kinds a parameter bag can carry.
//!
//! The bag is a typed mapping over a closed set of known keys, with a raw
//! fallback that preserves unrecognized single-character keys verbatim for
//! forward compatibility.  Its mathematical model is a map from keys to
//! character sequences.

use vstd::prelude::*;

use crate::tools::{
    i64_to_string, parse_i32, spec_i64_digits, spec_int_literal_value, spec_is_int_literal,
};

verus! {

/// Known parameter keys.
#[derive(Debug, Copy, Clone, PartialEq, Eq, Structural, Hash)]
pub enum Param {
    /// File locator of the attachment.
    File,
    /// Mime type of the attachment.
    MimeType,
    /// Width of an image or video in pixels.
    Width,
    /// Height of an image or video in pixels.
    Height,
    /// Duration of audio or video in milliseconds.
    Duration,
    /// Message was encrypted end-to-end with a guarantee.
    GuaranteeE2ee,
    /// Decryption error flags.
    ErroneousE2ee,
    /// Message is forwarded.
    Forwarded,
    /// Command kind of a system message.
    Cmd,
    /// Error text attached to a failed message.
    Error,
    /// North-south position bound to the message.
    SetLatitude,
    /// East-west position bound to the message.
    SetLongitude,
    /// Raw fallback preserving an unrecognized key verbatim.
    Other(char),
}

/// Command kind carried in the parameter bag of a system message.
#[derive(Debug, Copy, Clone, PartialEq, Eq, Structural, Hash)]
pub enum SystemMessage {
    Unknown,
    GroupNameChanged,
    GroupImageChanged,
    MemberAddedToGroup,
    MemberRemovedFromGroup,
    AutocryptSetupMessage,
    SecurejoinMessage,
    LocationStreamingEnabled,
    LocationOnly,
}

impl SystemMessage {
    /// Integer code under which the command kind is persisted.
    pub open spec fn spec_to_i64(self) -> i64 {
        match self {
            SystemMessage::Unknown => 0,
            SystemMessage::GroupNameChanged => 2,
            SystemMessage::GroupImageChanged => 3,
            SystemMessage::MemberAddedToGroup => 4,
            SystemMessage::MemberRemovedFromGroup => 5,
            SystemMessage::AutocryptSetupMessage => 6,
            SystemMessage::SecurejoinMessage => 7,
            SystemMessage::LocationStreamingEnabled => 8,
            SystemMessage::LocationOnly => 9,
        }
    }

    #[verifier::when_used_as_spec(spec_to_i64)]
    pub fn to_i64(self) -> (r: i64)
        ensures
            r == self.spec_to_i64(),
    {
        match self {
            SystemMessage::Unknown => 0,
            SystemMessage::GroupNameChanged => 2,
            SystemMessage::GroupImageChanged => 3,
            SystemMessage::MemberAddedToGroup => 4,
            SystemMessage::MemberRemovedFromGroup => 5,
            SystemMessage::AutocryptSetupMessage => 6,
            SystemMessage::SecurejoinMessage => 7,
            SystemMessage::LocationStreamingEnabled => 8,
            SystemMessage::LocationOnly => 9,
        }
    }

    /// Decodes a persisted integer; unrecognized codes yield `Unknown`.
    pub open spec fn spec_from_i64(v: i64) -> SystemMessage {
        if v == 2 {
            SystemMessage::GroupNameChanged
        } else if v == 3 {
            SystemMessage::GroupImageChanged
        } else if v == 4 {
            SystemMessage::MemberAddedToGroup
        } else if v == 5 {
            SystemMessage::MemberRemovedFromGroup
        } else if v == 6 {
            SystemMessage::AutocryptSetupMessage
        } else if v == 7 {
            SystemMessage::SecurejoinMessage
        } else if v == 8 {
            SystemMessage::LocationStreamingEnabled
        } else if v == 9 {
            SystemMessage::LocationOnly
        } else {
            SystemMessage::Unknown
        }
    }

    #[verifier::when_used_as_spec(spec_from_i64)]
    pub fn from_i64(v: i64) -> (r: SystemMessage)
        ensures
            r == SystemMessage::spec_from_i64(v),
    {
        if v == 2 {
            SystemMessage::GroupNameChanged
        } else if v == 3 {
            SystemMessage::GroupImageChanged
        } else if v == 4 {
            SystemMessage::MemberAddedToGroup
        } else if v == 5 {
            SystemMessage::MemberRemovedFromGroup
        } else if v == 6 {
            SystemMessage::AutocryptSetupMessage
        } else if v == 7 {
            SystemMessage::SecurejoinMessage
        } else if v == 8 {
            SystemMessage::LocationStreamingEnabled
        } else if v == 9 {
            SystemMessage::LocationOnly
        } else {
            SystemMessage::Unknown
        }
    }
}

impl Default for SystemMessage {
    fn default() -> (r: SystemMessage)
        ensures
            r == SystemMessage::Unknown,
    {
        SystemMessage::Unknown
    }
}

/// The parameter bag: key/value entries with pairwise distinct keys.
#[derive(Debug)]
pub struct Params {
    pub entries: Vec<(Param, String)>,
}

/// Map represented by a sequence of key/value entries, later entries
/// taking precedence.
pub open spec fn entries_map(s: Seq<(Param, String)>) -> Map<Param, Seq<char>>
    decreases s.len(),
{
    if s.len() == 0 {
        Map::empty()
    } else {
        entries_map(s.drop_last()).insert(s.last().0, s.last().1@)
    }
}

/// Keys of the entry sequence are pairwise distinct.
pub open spec fn entries_unique(s: Seq<(Param, String)>) -> bool {
    forall|i: int, j: int| 0 <= i < j < s.len() ==> (#[trigger] s[i]).0 != (#[trigger] s[j]).0
}

impl View for Params {
    type V = Map<Param, Seq<char>>;

    open spec fn view(&self) -> Map<Param, Seq<char>> {
        entries_map(self.entries@)
    }
}

/// A key is in the represented map exactly when an entry carries it, and
/// under unique keys each entry gives its key's value.
pub proof fn lemma_entries_map(s: Seq<(Param, String)>)
    ensures
        forall|k: Param| #[trigger]
            entries_map(s).contains_key(k) <==> exists|i: int|
                0 <= i < s.len() && (#[trigger] s[i]).0 == k,
        entries_unique(s) ==> forall|i: int|
            0 <= i < s.len() ==> entries_map(s).contains_key((#[trigger] s[i]).0)
                && entries_map(s)[s[i].0] == s[i].1@,
    decreases s.len(),
{
    if s.len() > 0 {
        lemma_entries_map(s.drop_last());
        assert(forall|k: Param| #[trigger]
            entries_map(s).contains_key(k) <==> exists|i: int|
                0 <= i < s.len() && (#[trigger] s[i]).0 == k) by {
            assert forall|k: Param| entries_map(s).contains_key(k) implies exists|i: int|
                0 <= i < s.len() && (#[trigger] s[i]).0 == k by {
                if s.last().0 == k {
                    assert(s[s.len() - 1].0 == k);
                } else {
                    assert(entries_map(s.drop_last()).contains_key(k));
                    assert(exists|i: int|
                        0 <= i < s.drop_last().len() && (#[trigger] s.drop_last()[i]).0 == k);
                    let i = choose|i: int|
                        0 <= i < s.drop_last().len() && (#[trigger] s.drop_last()[i]).0 == k;
                    assert(s[i].0 == k);
                }
            }
            assert forall|k: Param|
                exists|i: int| 0 <= i < s.len() && (#[trigger] s[i]).0 == k implies entries_map(
                s,
            ).contains_key(k) by {
                let i = choose|i: int| 0 <= i < s.len() && (#[trigger] s[i]).0 == k;
                if i < s.len() - 1 {
                    assert(s.drop_last()[i].0 == k);
                }
            }
        }
        if entries_unique(s) {
            assert(entries_unique(s.drop_last())) by {
                assert(forall|i: int, j: int|
                    0 <= i < j < s.len() - 1 ==> (#[trigger] s.drop_last()[i]).0
                        != (#[trigger] s.drop_last()[j]).0);
            }
            assert forall|i: int| 0 <= i < s.len() implies entries_map(s).contains_key(
                (#[trigger] s[i]).0,
            ) && entries_map(s)[s[i].0] == s[i].1@ by {
                if i < s.len() - 1 {
                    assert(s.drop_last()[i] == s[i]);
                    assert(s[i].0 != s.last().0);
                }
            }
        }
    }
}

/// Updating the entry of a key in place updates the represented map.
proof fn lemma_entries_map_update(s: Seq<(Param, String)>, i: int, e: (Param, String))
    requires
        entries_unique(s),
        0 <= i < s.len(),
        s[i].0 == e.0,
    ensures
        entries_map(s.update(i, e)) == entries_map(s).insert(e.0, e.1@),
        entries_unique(s.update(i, e)),
    decreases s.len(),
{
    let t = s.update(i, e);
    assert(entries_unique(t)) by {
        assert(forall|x: int| 0 <= x < s.len() && x != i ==> (#[trigger] t[x]).0 == s[x].0);
    }
    if i == s.len() - 1 {
        assert(t.drop_last() =~= s.drop_last());
        assert(t.last() == e);
        assert(entries_map(t) == entries_map(s.drop_last()).insert(e.0, e.1@));
        assert(entries_map(s) == entries_map(s.drop_last()).insert(s.last().0, s.last().1@));
        assert(entries_map(s).insert(e.0, e.1@) =~= entries_map(s.drop_last()).insert(
            e.0,
            e.1@,
        ));
    } else {
        assert(entries_unique(s.drop_last())) by {
            assert(forall|x: int, y: int|
                0 <= x < y < s.len() - 1 ==> (#[trigger] s.drop_last()[x]).0
                    != (#[trigger] s.drop_last()[y]).0);
        }
        assert(t.drop_last() =~= s.drop_last().update(i, e));
        lemma_entries_map_update(s.drop_last(), i, e);
        assert(t.last() == s.last());
        assert(s.last().0 != e.0);
        assert(entries_map(t) == entries_map(s.drop_last()).insert(e.0, e.1@).insert(
            s.last().0,
            s.last().1@,
        ));
        assert(entries_map(s.drop_last()).insert(e.0, e.1@).insert(s.last().0, s.last().1@)
            =~= entries_map(s.drop_last()).insert(s.last().0, s.last().1@).insert(e.0, e.1@));
    }
}

impl Params {
    /// The entry keys are pairwise distinct.
    pub open spec fn wf(self) -> bool {
        entries_unique(self.entries@)
    }

    /// An empty parameter bag.
    pub fn new() -> (r: Params)
        ensures
            r.wf(),
            r@ == Map::<Param, Seq<char>>::empty(),
    {
        Params { entries: Vec::new() }
    }

    /// Position of the entry carrying the key, if any.
    fn index_of(&self, key: Param) -> (r: Option<usize>)
        requires
            self.wf(),
        ensures
            r matches Some(i) ==> i < self.entries@.len() && self.entries@[i as int].0 == key,
            r is None ==> forall|i: int|
                0 <= i < self.entries@.len() ==> (#[trigger] self.entries@[i]).0 != key,
            r is Some <==> self@.contains_key(key),
    {
        proof {
            lemma_entries_map(self.entries@);
        }
        let n = self.entries.len();
        let mut i: usize = 0;
        while i < n
            invariant
                i <= n == self.entries@.len(),
                forall|j: int| 0 <= j < i ==> (#[trigger] self.entries@[j]).0 != key,
            decreases n - i,
        {
            if self.entries[i].0 == key {
                proof {
                    lemma_entries_map(self.entries@);
                }
                return Some(i);
            }
            i += 1;
        }
        proof {
            lemma_entries_map(self.entries@);
        }
        None
    }

    /// Whether the bag holds a value for the key.
    pub fn exists_key(&self, key: Param) -> (r: bool)
        requires
            self.wf(),
        ensures
            r == self@.contains_key(key),
    {
        self.index_of(key).is_some()
    }

    /// Value stored for the key.
    pub fn get(&self, key: Param) -> (r: Option<String>)
        requires
            self.wf(),
        ensures
            r matches Some(v) ==> self@.contains_key(key) && v@ == self@[key],
            r is None ==> !self@.contains_key(key),
    {
        proof {
            lemma_entries_map(self.entries@);
        }
        match self.index_of(key) {
            Some(i) => Some(self.entries[i].1.clone()),
            None => None,
        }
    }

    /// Stores a value for the key, replacing any previous value.
    pub fn set(&mut self, key: Param, value: &str)
        requires
            old(self).wf(),
        ensures
            final(self).wf(),
            final(self)@ == old(self)@.insert(key, value@),
    {
        let owned = value.to_owned();
        match self.index_of(key) {
            Some(i) => {
                proof {
                    lemma_entries_map_update(self.entries@, i as int, (key, owned));
                }
                self.entries.set(i, (key, owned));
            },
            None => {
                proof {
                    assert(self.entries@.push((key, owned)).drop_last() =~= self.entries@);
                    assert(entries_unique(self.entries@.push((key, owned)))) by {
                        let t = self.entries@.push((key, owned));
                        assert(forall|x: int|
                            0 <= x < self.entries@.len() ==> #[trigger] t[x]
                                == self.entries@[x]);
                    }
                }
                self.entries.push((key, owned));
            },
        }
    }

    /// Removes the key and its value, if present.
    pub fn remove(&mut self, key: Param)
        requires
            old(self).wf(),
        ensures
            final(self).wf(),
            final(self)@ == old(self)@.remove(key),
    {
        match self.index_of(key) {
            Some(i) => {
                proof {
                    lemma_entries_map_remove(self.entries@, i as int);
                }
                self.entries.remove(i);
            },
            None => {
                proof {
                    lemma_entries_map(self.entries@);
                    assert(self@ =~= self@.remove(key));
                }
            },
        }
    }

    /// Integer stored for the key: the value parsed as a decimal literal.
    pub fn get_int(&self, key: Param) -> (r: Option<i32>)
        requires
            self.wf(),
        ensures
            r == spec_param_int(self@, key),
    {
        proof {
            lemma_entries_map(self.entries@);
        }
        match self.index_of(key) {
            Some(i) => parse_i32(self.entries[i].1.as_str()),
            None => None,
        }
    }

    /// Stores an integer for the key, rendered in decimal.
    pub fn set_int(&mut self, key: Param, value: i32)
        requires
            old(self).wf(),
        ensures
            final(self).wf(),
            final(self)@ == old(self)@.insert(key, spec_i64_digits(value as int)),
    {
        let text = i64_to_string(value as i64);
        self.set(key, text.as_str());
    }

    /// Command kind stored in the bag; `Unknown` when absent or malformed.
    pub fn get_cmd(&self) -> (r: SystemMessage)
        requires
            self.wf(),
        ensures
            r == spec_param_cmd(self@),
    {
        match self.get_int(Param::Cmd) {
            Some(v) => SystemMessage::from_i64(v as i64),
            None => SystemMessage::Unknown,
        }
    }

    /// Stores a command kind in the bag.
    pub fn set_cmd(&mut self, cmd: SystemMessage)
        requires
            old(self).wf(),
        ensures
            final(self).wf(),
            final(self)@ == old(self)@.insert(Param::Cmd, spec_i64_digits(cmd.spec_to_i64() as int)),
    {
        let code = cmd.to_i64();
        self.set_int(Param::Cmd, code as i32);
    }
}

/// Removing an entry removes its key from the represented map.
proof fn lemma_entries_map_remove(s: Seq<(Param, String)>, i: int)
    requires
        entries_unique(s),
        0 <= i < s.len(),
    ensures
        entries_map(s.remove(i)) == entries_map(s).remove(s[i].0),
        entries_unique(s.remove(i)),
    decreases s.len(),
{
    let t = s.remove(i);
    assert(entries_unique(t)) by {
        assert(forall|x: int| 0 <= x < i ==> (#[trigger] t[x]) == s[x]);
        assert(forall|x: int| i <= x < s.len() - 1 ==> (#[trigger] t[x]) == s[x + 1]);
    }
    assert(entries_unique(s.drop_last())) by {
        assert(forall|x: int, y: int|
            0 <= x < y < s.len() - 1 ==> (#[trigger] s.drop_last()[x]).0
                != (#[trigger] s.drop_last()[y]).0);
    }
    if i == s.len() - 1 {
        assert(t =~= s.drop_last());
        lemma_entries_map(s.drop_last());
        assert(!entries_map(s.drop_last()).contains_key(s[i].0)) by {
            assert(forall|x: int|
                0 <= x < s.len() - 1 ==> (#[trigger] s.drop_last()[x]).0 != s[i].0);
        }
        assert(entries_map(s.drop_last()) =~= entries_map(s).remove(s[i].0));
    } else {
        assert(t.drop_last() =~= s.drop_last().remove(i));
        lemma_entries_map_remove(s.drop_last(), i);
        assert(t.last() == s.last());
        assert(s[i].0 != s.last().0);
        assert(entries_map(t) == entries_map(s.drop_last()).remove(s[i].0).insert(
            s.last().0,
            s.last().1@,
        ));
        assert(entries_map(s.drop_last()).remove(s[i].0).insert(s.last().0, s.last().1@)
            =~= entries_map(s.drop_last()).insert(s.last().0, s.last().1@).remove(s[i].0));
    }
}

/// Integer reading of a bag value: present, a well-formed decimal literal,
/// and within the 32-bit range.
pub open spec fn spec_param_int(m: Map<Param, Seq<char>>, key: Param) -> Option<i32> {
    if m.contains_key(key) && spec_is_int_literal(m[key]) && i32::MIN
        <= spec_int_literal_value(m[key]) <= i32::MAX {
        Some(spec_int_literal_value(m[key]) as i32)
    } else {
        None
    }
}

/// Command kind reading of a bag: the decoded command integer, `Unknown`
/// when absent or malformed.
pub open spec fn spec_param_cmd(m: Map<Param, Seq<char>>) -> SystemMessage {
    match spec_param_int(m, Param::Cmd) {
        Some(v) => SystemMessage::spec_from_i64(v as i64),
        None => SystemMessage::Unknown,
    }
}

impl Clone for Params {
    /// Cloning preserves the represented map.
    fn clone(&self) -> (r: Params)
        ensures
            r@ == self@,
            r.wf() == self.wf(),
            r.entries@ =~= self.entries@,
    {
        let n = self.entries.len();
        let mut out: Vec<(Param, String)> = Vec::new();
        let mut i: usize = 0;
        while i < n
            invariant
                i <= n == self.entries@.len(),
                out@ =~= self.entries@.subrange(0, i as int),
            decreases n - i,
        {
            let key = self.entries[i].0;
            let value = self.entries[i].1.clone();
            proof {
                assert(self.entries@.subrange(0, i + 1) =~= self.entries@.subrange(
                    0,
                    i as int,
                ).push(self.entries@[i as int]));
            }
            out.push((key, value));
            i += 1;
        }
        proof {
            assert(out@ =~= self.entries@);
        }
        Params { entries: out }
    }
}

impl Default for Params {
    /// An empty parameter bag.
    fn default() -> (r: Params)
        ensures
            r.wf(),
            r@ == Map::<Param, Seq<char>>::empty(),
    {
        Params::new()
    }
}

} // verus!
