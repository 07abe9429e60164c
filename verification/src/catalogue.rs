//! The protocols that this endpoint offers, by category.

use crate::connection::{
    select_muxer, select_security, spec_select_muxer, spec_select_security,
};
use crate::negotiation::ids_of;
use crate::text::str_eq;
use vstd::prelude::*;
use vstd::slice::slice_to_vec;
use vstd::utf8::encode_utf8;

verus! {

/// A stage of connection bring-up at which a protocol is chosen.
#[derive(Debug, Clone, Copy, PartialEq, Eq, Structural)]
pub enum Category {
    /// Securing the raw byte transport.
    Security,
    /// Multiplexing streams over the secured channel.
    Multiplexing,
    /// The application protocol inside one stream.
    Protocol,
}

impl Category {
    /// The name under which a category is listed.
    pub open spec fn spec_name(self) -> Seq<char> {
        match self {
            Category::Security => "security"@,
            Category::Multiplexing => "multiplexing"@,
            Category::Protocol => "protocol"@,
        }
    }

    /// The name under which a category is listed.
    pub fn name(self) -> (n: &'static str)
        ensures
            n@ == self.spec_name(),
    {
        match self {
            Category::Security => "security",
            Category::Multiplexing => "multiplexing",
            Category::Protocol => "protocol",
        }
    }

    /// The category listed under `name`; `None` for any other text.
    pub fn from_name(name: &str) -> (c: Option<Category>)
        ensures
            match c {
                Some(cat) => name@ == cat.spec_name(),
                None => forall|cat: Category| name@ != cat.spec_name(),
            },
    {
        if str_eq(name, "security") {
            Some(Category::Security)
        } else if str_eq(name, "multiplexing") {
            Some(Category::Multiplexing)
        } else if str_eq(name, "protocol") {
            Some(Category::Protocol)
        } else {
            None
        }
    }
}

/// For each category, the protocol identifiers this endpoint proposes as
/// initiator and accepts as responder, in order of preference.
#[derive(Debug, Clone)]
pub struct Catalogue {
    pub security: Vec<&'static str>,
    pub multiplexing: Vec<&'static str>,
    pub protocol: Vec<&'static str>,
}

/// Whether this endpoint can run what `id` names once it is agreed on in
/// `category`: the security protocols and the multiplexers that the
/// connection provides, and every application protocol.
pub open spec fn spec_is_provided(category: Category, id: Seq<u8>) -> bool {
    match category {
        Category::Security => spec_select_security(id) is Ok,
        Category::Multiplexing => spec_select_muxer(id) is Ok,
        Category::Protocol => true,
    }
}

/// Whether this endpoint can run what `id` names once it is agreed on in
/// `category`.
pub fn is_provided(category: Category, id: &[u8]) -> (b: bool)
    ensures
        b == spec_is_provided(category, id@),
{
    match category {
        Category::Security => select_security(id).is_ok(),
        Category::Multiplexing => select_muxer(id).is_ok(),
        Category::Protocol => true,
    }
}

/// The identifiers among `ids` that this endpoint can run in `category`,
/// in the order in which they stand.
pub open spec fn provided_among(category: Category, ids: Seq<Seq<u8>>) -> Seq<Seq<u8>>
    decreases ids.len(),
{
    if ids.len() == 0 {
        Seq::empty()
    } else {
        provided_among(category, ids.drop_last()) + if spec_is_provided(category, ids.last()) {
            seq![ids.last()]
        } else {
            Seq::empty()
        }
    }
}

/// The UTF-8 octets of each of a list of identifiers.
pub open spec fn octets_of(list: Seq<Seq<char>>) -> Seq<Seq<u8>> {
    Seq::new(list.len(), |i: int| encode_utf8(list[i]))
}

/// The identifiers of a list of texts, each as a sequence of characters.
pub open spec fn names(list: Seq<&'static str>) -> Seq<Seq<char>> {
    Seq::new(list.len(), |i: int| list[i]@)
}

impl Catalogue {
    /// The identifiers listed under `category`.
    pub open spec fn spec_get(&self, category: Category) -> Seq<Seq<char>> {
        match category {
            Category::Security => names(self.security@),
            Category::Multiplexing => names(self.multiplexing@),
            Category::Protocol => names(self.protocol@),
        }
    }

    /// The identifiers listed under `category`, in order of preference.
    pub fn get(&self, category: Category) -> (list: &Vec<&'static str>)
        ensures
            names(list@) == self.spec_get(category),
    {
        match category {
            Category::Security => &self.security,
            Category::Multiplexing => &self.multiplexing,
            Category::Protocol => &self.protocol,
        }
    }

    /// The identifiers listed under `category` as they go on the wire: the
    /// UTF-8 octets of each, in order of preference.
    pub fn candidates(&self, category: Category) -> (ids: Vec<Vec<u8>>)
        ensures
            ids@.len() == self.spec_get(category).len(),
            forall|i: int|
                0 <= i < ids@.len() ==> (#[trigger] ids@[i])@ == encode_utf8(
                    self.spec_get(category)[i],
                ),
    {
        let list = self.get(category);
        let mut ids: Vec<Vec<u8>> = Vec::new();
        let mut i: usize = 0;
        while i < list.len()
            invariant
                i <= list@.len(),
                names(list@) == self.spec_get(category),
                ids@.len() == i,
                forall|j: int|
                    0 <= j < i ==> (#[trigger] ids@[j])@ == encode_utf8(self.spec_get(category)[j]),
            decreases list@.len() - i,
        {
            assert(names(list@)[i as int] == list@[i as int]@);
            ids.push(slice_to_vec(list[i].as_bytes()));
            i = i + 1;
        }
        ids
    }

    /// The identifiers to negotiate with in `category`: those listed under
    /// it that this endpoint can run once they are agreed on, as they go on
    /// the wire and in order of preference. An identifier that is listed
    /// but not provided is neither proposed nor accepted.
    pub fn provided(&self, category: Category) -> (ids: Vec<Vec<u8>>)
        ensures
            ids_of(ids@) == provided_among(category, octets_of(self.spec_get(category))),
    {
        let all = self.candidates(category);
        let ghost octets = octets_of(self.spec_get(category));
        assert(ids_of(all@) =~= octets);
        let mut ids: Vec<Vec<u8>> = Vec::new();
        let mut i: usize = 0;
        assert(octets.subrange(0, 0) =~= Seq::<Seq<u8>>::empty());
        while i < all.len()
            invariant
                i <= all@.len(),
                ids_of(all@) == octets,
                ids_of(ids@) == provided_among(category, octets.subrange(0, i as int)),
            decreases all@.len() - i,
        {
            let ghost before = ids_of(ids@);
            let ghost upto = octets.subrange(0, i + 1);
            assert(upto.drop_last() =~= octets.subrange(0, i as int));
            assert(upto.last() == all@[i as int]@);
            if is_provided(category, all[i].as_slice()) {
                ids.push(slice_to_vec(all[i].as_slice()));
                assert(ids_of(ids@) =~= before + seq![all@[i as int]@]);
            } else {
                assert(ids_of(ids@) =~= before + Seq::<Seq<u8>>::empty());
            }
            i = i + 1;
        }
        assert(octets.subrange(0, i as int) =~= octets);
        ids
    }

    /// The identifiers listed under the category called `name`, or `None`
    /// where no category has that name.
    pub fn lookup(&self, name: &str) -> (list: Option<&Vec<&'static str>>)
        ensures
            match list {
                Some(l) => exists|cat: Category|
                    name@ == cat.spec_name() && names(l@) == self.spec_get(cat),
                None => forall|cat: Category| name@ != cat.spec_name(),
            },
    {
        match Category::from_name(name) {
            Some(cat) => Some(self.get(cat)),
            None => None,
        }
    }
}

/// The catalogue built into this endpoint.
pub open spec fn spec_supported_protocols(category: Category) -> Seq<Seq<char>> {
    match category {
        Category::Security => seq!["/noise/xx"@, "/tls{unimplemented}"@],
        Category::Multiplexing => seq!["/yamux{unimplemented}"@, "/mplex"@],
        Category::Protocol => seq!["/ping/1.0.0"@],
    }
}

/// The catalogue built into this endpoint: Noise XX ahead of a TLS entry that
/// is listed but not implemented, mplex behind a yamux entry of the same
/// kind, and the ping protocol.
pub fn supported_protocols() -> (c: Catalogue)
    ensures
        forall|category: Category| c.spec_get(category) == spec_supported_protocols(category),
{
    let c = Catalogue {
        security: vec!["/noise/xx", "/tls{unimplemented}"],
        multiplexing: vec!["/yamux{unimplemented}", "/mplex"],
        protocol: vec!["/ping/1.0.0"],
    };
    assert forall|category: Category| c.spec_get(category) == spec_supported_protocols(
        category,
    ) by {
        assert(c.spec_get(category) =~= spec_supported_protocols(category));
    }
    c
}

} // verus!
