//! Character-server listings, as the login server hands them to a client
//! after a successful login.

use crate::codec::{
    read_u16_le, u16_at, u16_le_bytes, write_bytes, write_u16_le, write_zeros, zeros, DecodeError,
};
use crate::text::{
    decode_text_field, encode_text_field, field_text, fits_field, lemma_text_field_round_trip,
    text_before_nul, text_field,
};
use vstd::prelude::*;
use vstd::slice::slice_subrange;

verus! {

/// Width in bytes of the server name field.
pub const SERVER_NAME_WIDTH: usize = 20;

/// Number of reserved zero bytes that close a listing.
pub const LISTING_RESERVED: usize = 128;

/// Length in bytes of one listing on the wire.
pub const LISTING_LEN: usize = 160;

/// How crowded a server reports itself to be.
#[derive(Clone, Copy, Debug, PartialEq, Eq, Structural)]
pub enum GeneralPopulation {
    Smooth,
    Normal,
    Busy,
    Crowded,
    Undefined,
}

/// The wire value of a population level.
pub open spec fn population_code(level: GeneralPopulation) -> u16 {
    match level {
        GeneralPopulation::Smooth => 0,
        GeneralPopulation::Normal => 1,
        GeneralPopulation::Busy => 2,
        GeneralPopulation::Crowded => 3,
        GeneralPopulation::Undefined => 4,
    }
}

impl GeneralPopulation {
    /// The wire value of this level.
    pub fn code(self) -> (r: u16)
        ensures
            r == population_code(self),
    {
        match self {
            GeneralPopulation::Smooth => 0,
            GeneralPopulation::Normal => 1,
            GeneralPopulation::Busy => 2,
            GeneralPopulation::Crowded => 3,
            GeneralPopulation::Undefined => 4,
        }
    }
}

/// One character server that a client may go on to.
#[derive(Clone, Debug, PartialEq, Eq)]
pub struct ServerListing {
    pub ip: [u8; 4],
    pub port: u16,
    pub name: String,
    pub population: u16,
    pub state: u16,
    pub property: u16,
}

/// A listing as a mathematical value.
pub ghost struct ServerListingView {
    pub ip: Seq<u8>,
    pub port: u16,
    pub name: Seq<char>,
    pub population: u16,
    pub state: u16,
    pub property: u16,
}

impl View for ServerListing {
    type V = ServerListingView;

    open spec fn view(&self) -> ServerListingView {
        ServerListingView {
            ip: self.ip@,
            port: self.port,
            name: self.name@,
            population: self.population,
            state: self.state,
            property: self.property,
        }
    }
}

/// True when the address of `l` has four bytes and its name fits the name
/// field.
pub open spec fn listing_fits(l: ServerListingView) -> bool {
    &&& l.ip.len() == 4
    &&& fits_field(l.name, SERVER_NAME_WIDTH as nat)
}

/// The wire form of a listing: address, port, name field, population, state,
/// property, and the reserved zero bytes.
pub open spec fn listing_bytes(l: ServerListingView) -> Seq<u8>
    recommends
        listing_fits(l),
{
    l.ip + u16_le_bytes(l.port) + text_field(l.name, SERVER_NAME_WIDTH as nat) + u16_le_bytes(
        l.population,
    ) + u16_le_bytes(l.state) + u16_le_bytes(l.property) + zeros(LISTING_RESERVED as nat)
}

/// The listing that the first `LISTING_LEN` bytes of `entry` carry. The
/// reserved bytes are not looked at.
pub open spec fn parse_listing(entry: Seq<u8>) -> Result<ServerListingView, DecodeError> {
    if entry.len() < LISTING_LEN {
        Err(DecodeError::Truncated)
    } else {
        match field_text(entry.subrange(6, 26)) {
            Some(name) => Ok(
                ServerListingView {
                    ip: entry.subrange(0, 4),
                    port: u16_at(entry, 4) as u16,
                    name,
                    population: u16_at(entry, 26) as u16,
                    state: u16_at(entry, 28) as u16,
                    property: u16_at(entry, 30) as u16,
                },
            ),
            None => Err(DecodeError::InvalidText),
        }
    }
}

/// The wire form of a list of listings: one entry after the other.
pub open spec fn server_list_bytes(list: Seq<ServerListingView>) -> Seq<u8>
    decreases list.len(),
{
    if list.len() == 0 {
        Seq::empty()
    } else {
        server_list_bytes(list.drop_last()) + listing_bytes(list.last())
    }
}

/// True when every listing of `list` fits its fields.
pub open spec fn server_list_fits(list: Seq<ServerListingView>) -> bool {
    forall|i: int| 0 <= i < list.len() ==> listing_fits(#[trigger] list[i])
}

/// The views of a vector of listings.
pub open spec fn listing_views(list: Seq<ServerListing>) -> Seq<ServerListingView> {
    list.map_values(|l: ServerListing| l@)
}

/// Every listing takes `LISTING_LEN` bytes, so a list takes that many times
/// its length.
pub proof fn lemma_server_list_len(list: Seq<ServerListingView>)
    requires
        server_list_fits(list),
    ensures
        server_list_bytes(list).len() == LISTING_LEN * list.len(),
    decreases list.len(),
{
    if list.len() > 0 {
        lemma_server_list_len(list.drop_last());
        assert(listing_fits(list[list.len() - 1]));
    }
}

impl ServerListing {
    /// Appends the wire form of this listing. A name that does not fit its
    /// field is refused, and nothing is written.
    pub fn encode(&self, out: &mut Vec<u8>) -> (fits: bool)
        ensures
            fits == listing_fits(self@),
            fits ==> final(out)@ == old(out)@ + listing_bytes(self@),
            !fits ==> final(out)@ == old(out)@,
    {
        let mut entry: Vec<u8> = Vec::new();
        write_bytes(&mut entry, self.ip.as_slice());
        write_u16_le(&mut entry, self.port);
        if !encode_text_field(&mut entry, self.name.as_str(), SERVER_NAME_WIDTH) {
            return false;
        }
        write_u16_le(&mut entry, self.population);
        write_u16_le(&mut entry, self.state);
        write_u16_le(&mut entry, self.property);
        write_zeros(&mut entry, LISTING_RESERVED);
        assert(entry@ =~= listing_bytes(self@));
        write_bytes(out, entry.as_slice());
        true
    }

    /// Decodes the listing at the start of `entry`.
    pub fn decode(entry: &[u8]) -> (r: Result<ServerListing, DecodeError>)
        ensures
            parse_listing(entry@) matches Ok(l) ==> r is Ok && r->Ok_0@ == l,
            parse_listing(entry@) matches Err(e) ==> r == Err::<ServerListing, DecodeError>(e),
    {
        if entry.len() < LISTING_LEN {
            return Err(DecodeError::Truncated);
        }
        let name = match decode_text_field(slice_subrange(entry, 6, 26)) {
            Ok(s) => s,
            Err(e) => {
                return Err(e);
            },
        };
        let ip: [u8; 4] = [entry[0], entry[1], entry[2], entry[3]];
        assert(ip@ =~= entry@.subrange(0, 4));
        let port = match read_u16_le(entry, 4) {
            Ok(v) => v,
            Err(e) => {
                return Err(e);
            },
        };
        let population = match read_u16_le(entry, 26) {
            Ok(v) => v,
            Err(e) => {
                return Err(e);
            },
        };
        let state = match read_u16_le(entry, 28) {
            Ok(v) => v,
            Err(e) => {
                return Err(e);
            },
        };
        let property = match read_u16_le(entry, 30) {
            Ok(v) => v,
            Err(e) => {
                return Err(e);
            },
        };
        Ok(ServerListing { ip, port, name, population, state, property })
    }
}

/// A listing survives encoding and decoding, but for what follows a NUL
/// character in its name.
pub proof fn lemma_listing_round_trip(l: ServerListingView)
    requires
        listing_fits(l),
    ensures
        listing_bytes(l).len() == LISTING_LEN,
        parse_listing(listing_bytes(l)) == Ok::<ServerListingView, DecodeError>(
            ServerListingView { name: text_before_nul(l.name), ..l },
        ),
{
    let entry = listing_bytes(l);
    lemma_text_field_round_trip(l.name, SERVER_NAME_WIDTH as nat);
    crate::codec::lemma_u16_round_trip(l.port);
    crate::codec::lemma_u16_round_trip(l.population);
    crate::codec::lemma_u16_round_trip(l.state);
    crate::codec::lemma_u16_round_trip(l.property);
    assert(entry.subrange(6, 26) =~= text_field(l.name, SERVER_NAME_WIDTH as nat));
    assert(entry.subrange(0, 4) =~= l.ip);
    assert(u16_at(entry, 4) == u16_at(u16_le_bytes(l.port), 0));
    assert(u16_at(entry, 26) == u16_at(u16_le_bytes(l.population), 0));
    assert(u16_at(entry, 28) == u16_at(u16_le_bytes(l.state), 0));
    assert(u16_at(entry, 30) == u16_at(u16_le_bytes(l.property), 0));
}

/// Encodes a list of listings, one entry after the other, or returns `None`
/// when one of them does not fit its fields.
pub fn encode_server_list(list: &Vec<ServerListing>) -> (r: Option<Vec<u8>>)
    ensures
        server_list_fits(listing_views(list@)) ==> r is Some && r->Some_0@ == server_list_bytes(
            listing_views(list@),
        ),
        !server_list_fits(listing_views(list@)) ==> r is None,
{
    let mut out: Vec<u8> = Vec::new();
    let mut i: usize = 0;
    while i < list.len()
        invariant
            i <= list@.len(),
            server_list_fits(listing_views(list@).take(i as int)),
            out@ == server_list_bytes(listing_views(list@).take(i as int)),
        decreases list@.len() - i,
    {
        let ghost views = listing_views(list@);
        let fits = list[i].encode(&mut out);
        assert(views[i as int] == list@[i as int]@);
        if !fits {
            return None;
        }
        proof {
            let next = views.take(i + 1);
            assert(next.drop_last() =~= views.take(i as int));
            assert(next.last() == views[i as int]);
            assert forall|j: int| 0 <= j < next.len() implies listing_fits(#[trigger] next[j]) by {
                if j < i {
                    assert(next[j] == views.take(i as int)[j]);
                }
            }
        }
        i = i + 1;
    }
    assert(listing_views(list@).take(list@.len() as int) =~= listing_views(list@));
    Some(out)
}

/// The one character server that the login server knows of.
pub open spec fn known_character_server() -> ServerListingView {
    ServerListingView {
        ip: seq![192u8, 168u8, 1u8, 70u8],
        port: 4500,
        name: "Cerberus"@,
        population: 4,
        state: 0,
        property: 0,
    }
}

/// The known character server fits its fields, and its name stands in the
/// name field letter by letter.
pub proof fn lemma_known_character_server()
    ensures
        listing_fits(known_character_server()),
        listing_bytes(known_character_server()).len() == LISTING_LEN,
        vstd::utf8::encode_utf8(known_character_server().name) == seq![
            0x43u8, 0x65u8, 0x72u8, 0x62u8, 0x65u8, 0x72u8, 0x75u8, 0x73u8,
        ],
{
    reveal_strlit("Cerberus");
    let name = "Cerberus"@;
    assert(vstd::utf8::is_ascii_chars(name));
    vstd::utf8::is_ascii_chars_encode_utf8(name);
    assert(vstd::utf8::encode_utf8(name) =~= seq![
        0x43u8, 0x65u8, 0x72u8, 0x62u8, 0x65u8, 0x72u8, 0x75u8, 0x73u8,
    ]);
    lemma_listing_round_trip(known_character_server());
}

/// The listing of the one character server that the login server knows of.
pub fn character_server() -> (r: ServerListing)
    ensures
        r@ == known_character_server(),
        listing_fits(r@),
{
    let ip: [u8; 4] = [192, 168, 1, 70];
    let listing = ServerListing {
        ip,
        port: 4500,
        name: "Cerberus".to_owned(),
        population: GeneralPopulation::Undefined.code(),
        state: 0,
        property: 0,
    };
    proof {
        assert(listing.ip@ =~= seq![192u8, 168u8, 1u8, 70u8]);
        lemma_known_character_server();
    }
    listing
}

/// The server list that follows the header of a successful login reply.
pub fn get_login_character_servers_list_packet() -> (packet: Vec<u8>)
    ensures
        packet@ == listing_bytes(known_character_server()),
        packet@.len() == LISTING_LEN,
{
    let listing = character_server();
    let mut packet: Vec<u8> = Vec::new();
    let fits = listing.encode(&mut packet);
    proof {
        lemma_listing_round_trip(listing@);
        assert(packet@ =~= listing_bytes(listing@));
    }
    packet
}

} // verus!
