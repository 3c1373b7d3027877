//! Read-only view of the contact directory collaborator: display names
//! used by summary derivation and message info.

use vstd::prelude::*;

verus! {

/// A row of the contact directory.
#[derive(Debug, Clone)]
pub struct Contact {
    /// Contact id; reserved ids below the special bound never denote
    /// an addressable peer.
    pub id: u32,
    /// Name chosen by the user; may be empty.
    pub name: String,
    /// Mail address of the contact.
    pub addr: String,
}

/// Mathematical model of a contact row.
pub ghost struct ContactView {
    pub id: u32,
    pub name: Seq<char>,
    pub addr: Seq<char>,
}

impl View for Contact {
    type V = ContactView;

    open spec fn view(&self) -> ContactView {
        ContactView { id: self.id, name: self.name@, addr: self.addr@ }
    }
}

/// Display name of a contact: the chosen name, or the address while no
/// name is set.
pub open spec fn spec_display_name(c: ContactView) -> Seq<char> {
    if c.name.len() > 0 {
        c.name
    } else {
        c.addr
    }
}

/// Longest space-free prefix of a sequence.
pub open spec fn spec_first_word(s: Seq<char>) -> Seq<char>
    decreases s.len(),
{
    if s.len() == 0 {
        s
    } else if s[0] == ' ' {
        Seq::empty()
    } else {
        seq![s[0]] + spec_first_word(s.subrange(1, s.len() as int))
    }
}

/// The longest space-free prefix is the prefix up to the first space.
proof fn lemma_first_word_prefix(s: Seq<char>, i: int)
    requires
        0 <= i <= s.len(),
        forall|j: int| 0 <= j < i ==> s[j] != ' ',
        i < s.len() ==> s[i] == ' ',
    ensures
        spec_first_word(s) == s.subrange(0, i),
    decreases i,
{
    if i == 0 {
        if s.len() == 0 {
            assert(s.subrange(0, 0) =~= s);
        } else {
            assert(s.subrange(0, 0) =~= Seq::<char>::empty());
        }
    } else {
        let t = s.subrange(1, s.len() as int);
        assert(forall|j: int| 0 <= j < i - 1 ==> #[trigger] t[j] != ' ');
        lemma_first_word_prefix(t, i - 1);
        assert(spec_first_word(s) == seq![s[0]] + t.subrange(0, i - 1));
        assert(seq![s[0]] + t.subrange(0, i - 1) =~= s.subrange(0, i));
    }
}

/// First word of the display name.
pub open spec fn spec_first_name(c: ContactView) -> Seq<char> {
    spec_first_word(spec_display_name(c))
}

/// Name and address form used in message info: `name (addr)`, or the bare
/// address while no name is set.
pub open spec fn spec_name_n_addr(c: ContactView) -> Seq<char> {
    if c.name.len() > 0 {
        c.name + " ("@ + c.addr + ")"@
    } else {
        c.addr
    }
}

impl Contact {
    /// Display name: the chosen name, or the address while no name is set.
    pub fn get_display_name(&self) -> (r: String)
        ensures
            r@ == spec_display_name(self@),
    {
        if self.name.as_str().unicode_len() > 0 {
            self.name.clone()
        } else {
            self.addr.clone()
        }
    }

    /// First word of the display name.
    pub fn get_first_name(&self) -> (r: String)
        ensures
            r@ == spec_first_name(self@),
    {
        let d = self.get_display_name();
        let n = d.as_str().unicode_len();
        let mut i: usize = 0;
        while i < n
            invariant
                i <= n == d@.len(),
                d@ == spec_display_name(self@),
                forall|j: int| 0 <= j < i ==> d@[j] != ' ',
            decreases n - i,
        {
            if d.as_str().get_char(i) == ' ' {
                let r = d.as_str().substring_char(0, i).to_owned();
                proof {
                    lemma_first_word_prefix(d@, i as int);
                }
                return r;
            }
            i += 1;
        }
        proof {
            lemma_first_word_prefix(d@, n as int);
            assert(d@.subrange(0, n as int) =~= d@);
        }
        d
    }

    /// Name and address form used in message info.
    pub fn get_name_n_addr(&self) -> (r: String)
        ensures
            r@ == spec_name_n_addr(self@),
    {
        if self.name.as_str().unicode_len() > 0 {
            let mut s = self.name.clone();
            s.append(" (");
            s.append(self.addr.as_str());
            s.append(")");
            proof {
                assert(s@ =~= spec_name_n_addr(self@));
            }
            s
        } else {
            self.addr.clone()
        }
    }
}

} // verus!
