//! Single-use seals: their definitions, their resolved form and the witnesses of their closing.
use std::collections::BTreeMap;

use vstd::prelude::*;

use amplify::confinement::SmallOrdMap;

use crate::ids::{AuthToken, Opid};

verus! {

broadcast use vstd::laws_cmp::group_laws_cmp;

/// Definition of a seal, as an operation reports it.
///
/// Each method is a function of the definition and of the other arguments alone; the
/// specification function next to it names what it returns.
pub trait RgbSealDef: Sized {
    /// The seal which the definition defines.
    type Src;

    /// Identifier of a published witness.
    type PubId;

    /// What [`Self::auth_token`] returns.
    open spec fn token(&self) -> AuthToken {
        arbitrary()
    }

    /// What [`Self::to_src`] returns.
    open spec fn src(&self) -> Option<Self::Src> {
        arbitrary()
    }

    /// What [`Self::resolve`] returns.
    open spec fn resolved(&self, pub_id: Self::PubId) -> Self::Src {
        arbitrary()
    }

    /// The characters of what [`Self::to_text`] returns.
    open spec fn text(&self) -> Seq<char> {
        arbitrary()
    }

    /// Returns the token of authority: the commitment to the definition.
    fn auth_token(&self) -> (token: AuthToken)
        ensures
            token == self.token(),
    ;

    /// Returns the seal, if it can be told without a witness.
    fn to_src(&self) -> (src: Option<Self::Src>)
        ensures
            src == self.src(),
    ;

    /// Resolves the seal of a definition which is relative to a published witness.
    fn resolve(&self, pub_id: Self::PubId) -> (src: Self::Src)
        ensures
            src == self.resolved(pub_id),
    ;

    /// Returns the definition as text.
    fn to_text(&self) -> (text: String)
        ensures
            text@ == self.text(),
    ;
}

/// Single-use seal which may be closed over an operation.
///
/// Each function is a function of its arguments alone; the specification function next to it
/// names what it returns.
pub trait RgbSeal: Sized {
    /// Definition of the seal in an operation.
    type Definition: RgbSealDef<Src = Self, PubId = Self::PubId>;

    /// The published part of a witness.
    type PubWitness;

    /// The client-side part of a witness.
    type CliWitness;

    /// Identifier of a published witness.
    type PubId: Copy;

    /// The reason for which a witness does not close seals.
    type ClosingError;

    /// What [`Self::pub_id`] returns.
    open spec fn publication(published: Self::PubWitness) -> Self::PubId {
        arbitrary()
    }

    /// What [`Self::verify_seals_closing`] returns.
    open spec fn closing(
        published: Self::PubWitness,
        client: Self::CliWitness,
        seals: Seq<Self>,
        message: Opid,
    ) -> Result<(), Self::ClosingError> {
        arbitrary()
    }

    /// Returns the identifier of a published witness.
    fn pub_id(published: &Self::PubWitness) -> (id: Self::PubId)
        ensures
            id == Self::publication(*published),
    ;

    /// Verifies that all the seals are closed over the message by the witness.
    fn verify_seals_closing(
        published: &Self::PubWitness,
        client: &Self::CliWitness,
        seals: &Vec<Self>,
        message: Opid,
    ) -> (closed: Result<(), Self::ClosingError>)
        ensures
            closed == Self::closing(*published, *client, seals@, message),
    ;
}

/// Witness of the closing of seals.
pub struct SealWitness<Seal: RgbSeal> {
    /// The published part of the witness.
    pub published: Seal::PubWitness,
    /// The client-side part of the witness.
    pub client: Seal::CliWitness,
}

impl<Seal: RgbSeal> Clone for SealWitness<Seal> where
    Seal::PubWitness: Clone,
    Seal::CliWitness: Clone,
 {
    fn clone(&self) -> (copy: Self)
        ensures
            cloned(self.published, copy.published),
            cloned(self.client, copy.client),
    {
        SealWitness { published: self.published.clone(), client: self.client.clone() }
    }
}

/// The map of `amplify::confinement` which holds the definitions.
#[verifier::external_body]
#[verifier::reject_recursive_types(Definition)]
struct ConfinedMap<Definition> {
    map: SmallOrdMap<u16, Definition>,
}

/// Seal definitions which an operation reports, by the number of the output they belong to. There
/// are at most [`MAX_DEFINED_SEALS`] of them.
#[verifier::reject_recursive_types(Definition)]
pub struct DefinedSeals<Definition> {
    confined: ConfinedMap<Definition>,
    contents: Ghost<Map<u16, Definition>>,
}

/// The greatest number of seal definitions of one operation.
pub const MAX_DEFINED_SEALS: usize = 0xFFFF;

impl<Definition> View for DefinedSeals<Definition> {
    type V = Map<u16, Definition>;

    closed spec fn view(&self) -> Map<u16, Definition> {
        self.contents@
    }
}

impl<Definition> DefinedSeals<Definition> {
    /// Makes the definitions from a map, if there are not too many of them.
    pub fn from_map(map: BTreeMap<u16, Definition>) -> (made: Option<Self>)
        ensures
            made is Some <==> map@.len() <= MAX_DEFINED_SEALS,
            made matches Some(seals) ==> seals@ == map@,
    {
        confine(map)
    }

    /// Returns the definitions as a map.
    pub fn as_map(&self) -> (map: &BTreeMap<u16, Definition>)
        ensures
            map@ == self@,
    {
        unconfined(self)
    }

    /// Tells whether there are no definitions.
    pub fn is_empty(&self) -> (empty: bool)
        ensures
            empty <==> self@ == Map::<u16, Definition>::empty(),
    {
        let empty = self.as_map().is_empty();
        proof {
            if empty {
                assert(self@ =~= Map::<u16, Definition>::empty());
            }
        }
        empty
    }

    /// Returns the definitions with the numbers of the outputs they belong to.
    pub fn entries(&self) -> (entries: Vec<(u16, &Definition)>)
        ensures
            lists(entries@, self@),
    {
        let map = self.as_map();
        let mut entries: Vec<(u16, &Definition)> = Vec::new();
        for entry in it: map.iter()
            invariant
                entries.len() == it.index(),
                forall|i: int|
                    #![trigger it.seq()[i]]
                    0 <= i < it.seq().len() ==> map@.contains_key(*it.seq()[i].0)
                        && map@[*it.seq()[i].0] == *it.seq()[i].1,
                it.seq().len() == map@.len(),
                forall|pos: u16| #[trigger]
                    map@.contains_key(pos) ==> exists|i: int|
                        0 <= i < it.seq().len() && (#[trigger] it.seq()[i]) == (&pos, &map@[pos]),
                forall|i: int|
                    #![trigger it.seq()[i]]
                    #![trigger entries@[i]]
                    0 <= i < it.index() ==> entries@[i] == (*it.seq()[i].0, it.seq()[i].1),
        {
            let (pos, definition) = entry;
            entries.push((*pos, definition));
        }
        entries
    }
}

impl<Definition> DefinedSeals<Definition> {
    #[verifier::type_invariant]
    spec fn well_formed(self) -> bool {
        self.contents@.len() <= MAX_DEFINED_SEALS
    }
}

impl<Definition: Clone> Clone for DefinedSeals<Definition> {
    fn clone(&self) -> (copy: Self)
        ensures
            copy@ == self@,
    {
        proof {
            use_type_invariant(self);
        }
        let copy = Self::from_map(self.as_map().clone());
        copy.unwrap()
    }
}

/// Whether a list holds the entries of a map, each once.
pub open spec fn lists<Definition>(
    entries: Seq<(u16, &Definition)>,
    map: Map<u16, Definition>,
) -> bool {
    &&& forall|i: int|
        0 <= i < entries.len() ==> map.contains_key((#[trigger] entries[i]).0)
            && map[entries[i].0] == *entries[i].1
    &&& entries.len() == map.len()
    &&& forall|pos: u16| #[trigger]
        map.contains_key(pos) ==> exists|i: int|
            0 <= i < entries.len() && (#[trigger] entries[i]).0 == pos
}

/// `amplify::confinement::Confined::try_from` on a map, as `SmallOrdMap` bounds it: fails exactly
/// where the map has more than 65535 entries, else holds the map unchanged.
#[verifier::external_body]
fn confine<Definition>(map: BTreeMap<u16, Definition>) -> (made: Option<DefinedSeals<Definition>>)
    ensures
        made is Some <==> map@.len() <= MAX_DEFINED_SEALS,
        made matches Some(seals) ==> seals.contents@ == map@,
{
    let contents = Ghost(map@);
    match SmallOrdMap::try_from(map) {
        Ok(map) => Some(DefinedSeals { confined: ConfinedMap { map }, contents }),
        Err(_) => None,
    }
}

/// `amplify::confinement::Confined::as_unconfined`: the map which is confined.
#[verifier::external_body]
fn unconfined<Definition>(seals: &DefinedSeals<Definition>) -> (map: &BTreeMap<u16, Definition>)
    ensures
        map@ == seals.contents@,
{
    seals.confined.map.as_unconfined()
}

} // verus!
