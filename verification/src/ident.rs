use vstd::prelude::*;
use crate::Mutability;

verus! {

/// An identifier of the host language, held as its characters.
pub struct Ident {
    pub chars: Vec<char>,
}

impl View for Ident {
    type V = Seq<char>;

    open spec fn view(&self) -> Seq<char> {
        self.chars@
    }
}

impl Ident {
    pub fn new(chars: Vec<char>) -> (r: Ident)
        ensures
            r@ == chars@,
    {
        Ident { chars }
    }

    /// Structural equality of two identifiers.
    pub fn eq_ident(&self, other: &Ident) -> (r: bool)
        ensures
            r == (self@ == other@),
    {
        if self.chars.len() != other.chars.len() {
            assert(self@ != other@);
            return false;
        }
        let n = self.chars.len();
        let mut i: usize = 0;
        while i < n
            invariant
                n == self.chars.len(),
                n == other.chars.len(),
                i <= n,
                forall|j: int| 0 <= j < i ==> self.chars@[j] == other.chars@[j],
            decreases n - i,
        {
            if self.chars[i] != other.chars[i] {
                assert(self@[i as int] != other@[i as int]);
                return false;
            }
            i += 1;
        }
        assert(self@ =~= other@);
        true
    }

    /// A fresh copy of this identifier.
    pub fn clone_ident(&self) -> (r: Ident)
        ensures
            r@ == self@,
    {
        let mut chars: Vec<char> = Vec::new();
        let n = self.chars.len();
        let mut i: usize = 0;
        while i < n
            invariant
                n == self.chars.len(),
                i <= n,
                chars@ =~= self.chars@.subrange(0, i as int),
            decreases n - i,
        {
            chars.push(self.chars[i]);
            i += 1;
        }
        assert(chars@ =~= self@);
        Ident { chars }
    }
}

/// The suffix appended to a type name to form its projection name, by mode.
pub open spec fn proj_suffix(mutability: Mutability) -> Seq<char> {
    match mutability {
        Mutability::Mutable => seq!['P', 'r', 'o', 'j', 'e', 'c', 't', 'i', 'o', 'n'],
        Mutability::Immutable => seq![
            'P', 'r', 'o', 'j', 'e', 'c', 't', 'i', 'o', 'n', 'R', 'e', 'f',
        ],
        Mutability::Owned => seq![
            'P', 'r', 'o', 'j', 'e', 'c', 't', 'i', 'o', 'n', 'O', 'w', 'n', 'e', 'd',
        ],
    }
}

/// The projection type name derived from a type (or enum) name: a double
/// underscore, the original name, and the mode's suffix. The derivation is a
/// pure function of the name and mode, so rewritten names can be compared.
pub open spec fn proj_name(name: Seq<char>, mutability: Mutability) -> Seq<char> {
    seq!['_', '_'] + name + proj_suffix(mutability)
}

/// The name of the opt-in marker attribute for a mode.
pub open spec fn marker_name(mutability: Mutability) -> Seq<char> {
    match mutability {
        Mutability::Mutable => seq!['p', 'r', 'o', 'j', 'e', 'c', 't'],
        Mutability::Immutable => seq![
            'p', 'r', 'o', 'j', 'e', 'c', 't', '_', 'r', 'e', 'f',
        ],
        Mutability::Owned => seq![
            'p', 'r', 'o', 'j', 'e', 'c', 't', '_', 'r', 'e', 'p', 'l', 'a', 'c', 'e',
        ],
    }
}

fn push_all(out: &mut Vec<char>, tail: &Vec<char>)
    ensures
        final(out)@ == old(out)@ + tail@,
{
    let n = tail.len();
    let mut i: usize = 0;
    while i < n
        invariant
            n == tail.len(),
            i <= n,
            out@ =~= old(out)@ + tail@.subrange(0, i as int),
        decreases n - i,
    {
        out.push(tail[i]);
        i += 1;
    }
    assert(out@ =~= old(out)@ + tail@);
}

fn suffix_chars(mutability: Mutability) -> (r: Vec<char>)
    ensures
        r@ == proj_suffix(mutability),
{
    let mut v: Vec<char> = Vec::new();
    match mutability {
        Mutability::Mutable => {
            v.push('P'); v.push('r'); v.push('o'); v.push('j'); v.push('e');
            v.push('c'); v.push('t'); v.push('i'); v.push('o'); v.push('n');
            assert(v@ =~= proj_suffix(mutability));
        }
        Mutability::Immutable => {
            v.push('P'); v.push('r'); v.push('o'); v.push('j'); v.push('e');
            v.push('c'); v.push('t'); v.push('i'); v.push('o'); v.push('n');
            v.push('R'); v.push('e'); v.push('f');
            assert(v@ =~= proj_suffix(mutability));
        }
        Mutability::Owned => {
            v.push('P'); v.push('r'); v.push('o'); v.push('j'); v.push('e');
            v.push('c'); v.push('t'); v.push('i'); v.push('o'); v.push('n');
            v.push('O'); v.push('w'); v.push('n'); v.push('e'); v.push('d');
            assert(v@ =~= proj_suffix(mutability));
        }
    }
    v
}

/// The projection identifier for `ident` under `mutability`.
pub fn proj_ident(ident: &Ident, mutability: Mutability) -> (r: Ident)
    ensures
        r@ == proj_name(ident@, mutability),
{
    let mut chars: Vec<char> = Vec::new();
    chars.push('_');
    chars.push('_');
    assert(chars@ =~= seq!['_', '_']);
    push_all(&mut chars, &ident.chars);
    let suffix = suffix_chars(mutability);
    push_all(&mut chars, &suffix);
    assert(chars@ =~= proj_name(ident@, mutability));
    Ident { chars }
}

/// The marker attribute name for a mode, as characters.
pub fn marker_ident(mutability: Mutability) -> (r: Ident)
    ensures
        r@ == marker_name(mutability),
{
    let mut v: Vec<char> = Vec::new();
    match mutability {
        Mutability::Mutable => {
            v.push('p'); v.push('r'); v.push('o'); v.push('j'); v.push('e');
            v.push('c'); v.push('t');
            assert(v@ =~= marker_name(mutability));
        }
        Mutability::Immutable => {
            v.push('p'); v.push('r'); v.push('o'); v.push('j'); v.push('e');
            v.push('c'); v.push('t'); v.push('_'); v.push('r'); v.push('e');
            v.push('f');
            assert(v@ =~= marker_name(mutability));
        }
        Mutability::Owned => {
            v.push('p'); v.push('r'); v.push('o'); v.push('j'); v.push('e');
            v.push('c'); v.push('t'); v.push('_'); v.push('r'); v.push('e');
            v.push('p'); v.push('l'); v.push('a'); v.push('c'); v.push('e');
            assert(v@ =~= marker_name(mutability));
        }
    }
    Ident { chars: v }
}

} // verus!
