//! The identity of one backend endpoint.

use crate::domain::ident::{fresh_id, is_random_id};
use crate::text::{
    count_char, decimal, digit_of, find_char, lemma_count_char_concat, lemma_count_char_found,
    lemma_decimal_reads_back, lemma_find_char, lemma_port_reads_back, parse_u16, push_decimal,
    read_u16,
};
use vstd::prelude::*;
use vstd::string::{StrSliceExecFns, StringExecFns};

verus! {

/// A backend endpoint as the contracts see it.
pub struct Backend {
    /// The identifier by which the backend is looked up.
    pub id: u128,
    pub host: Seq<char>,
    pub port: u16,
}

/// One backend endpoint: a host, a port and an identifier that is drawn when
/// the value is made. Nothing changes it afterwards. Two endpoints with the
/// same address are still two backends: they are told apart by identifier.
#[derive(Debug, Clone)]
pub struct ConnString {
    uuid: u128,
    host: String,
    port: u16,
}

impl View for ConnString {
    type V = Backend;

    closed spec fn view(&self) -> Backend {
        Backend { id: self.uuid, host: self.host@, port: self.port }
    }
}

/// The address `host:port`, the port in decimal.
pub open spec fn address_of(host: Seq<char>, port: u16) -> Seq<char> {
    host + seq![':'] + decimal(port as nat)
}

/// The message for an address that is not of the form `host:port`.
pub open spec fn format_error() -> Seq<char> {
    "Invalid address format: expected 'host:port'"@
}

/// The message for an address whose port `port` is no port number.
pub open spec fn port_error(port: Seq<char>) -> Seq<char> {
    "Invalid port number: "@ + port
}

/// What an address reads as. An address is a host and a port with a single
/// `:` between them, and no other `:` anywhere; the host may be empty. With
/// none or several `:` the format is wrong; otherwise the text behind the
/// `:` must read as a port number.
pub open spec fn parse_address(address: Seq<char>) -> Result<(Seq<char>, u16), Seq<char>> {
    if count_char(address, ':') != 1 {
        Err(format_error())
    } else {
        let colon = find_char(address, ':');
        let port = address.subrange(colon + 1, address.len() as int);
        match read_u16(port) {
            Some(number) => Ok((address.subrange(0, colon), number)),
            None => Err(port_error(port)),
        }
    }
}

/// The address of a backend reads back as its host and its port, as long as
/// the host holds no `:`.
pub proof fn law_address_reads_back(host: Seq<char>, port: u16)
    requires
        count_char(host, ':') == 0,
    ensures
        parse_address(address_of(host, port)) == Ok::<(Seq<char>, u16), Seq<char>>((host, port)),
{
    let number = decimal(port as nat);
    let address = address_of(host, port);
    lemma_decimal_reads_back(port as nat);
    lemma_port_reads_back(port);
    assert(count_char(number, ':') == 0) by {
        if count_char(number, ':') != 0 {
            lemma_some_occurrence(number, ':');
            let at = choose|at: int| 0 <= at < number.len() && number[at] == ':';
            assert(digit_of(number[at]) is Some);
        }
    }
    assert(count_char(seq![':'], ':') == 1) by {
        assert(count_char(seq![':'].drop_last(), ':') == 0);
    }
    lemma_count_char_concat(host, seq![':'], ':');
    lemma_count_char_concat(host + seq![':'], number, ':');
    assert forall|j: int| 0 <= j < host.len() implies address[j] != ':' by {
        if host[j] == ':' {
            lemma_count_char_found(host, ':', j);
        }
    }
    lemma_find_char(address, ':', host.len() as int);
    assert(address.subrange(0, host.len() as int) =~= host);
    assert(address.subrange(host.len() as int + 1, address.len() as int) =~= number);
}

/// A character that is counted occurs somewhere.
proof fn lemma_some_occurrence(s: Seq<char>, c: char)
    requires
        count_char(s, c) > 0,
    ensures
        exists|at: int| 0 <= at < s.len() && s[at] == c,
    decreases s.len(),
{
    if s.last() == c {
        assert(s[s.len() - 1] == c);
    } else {
        lemma_some_occurrence(s.drop_last(), c);
        let at = choose|at: int| 0 <= at < s.drop_last().len() && s.drop_last()[at] == c;
        assert(s[at] == c);
    }
}

impl ConnString {
    /// A backend at `host:port`, under a new random identifier.
    pub fn new(host: String, port: u16) -> (backend: Self)
        ensures
            backend@.host == host@,
            backend@.port == port,
            is_random_id(backend@.id),
    {
        ConnString { uuid: fresh_id(), host, port }
    }

    /// Reads a backend out of an address of the form `host:port`.
    pub fn new_from_address(address: &str) -> (result: Result<Self, String>)
        ensures
            match parse_address(address@) {
                Ok((host, port)) => result matches Ok(backend) && backend@.host == host
                    && backend@.port == port && is_random_id(backend@.id),
                Err(message) => result matches Err(text) && text@ == message,
            },
    {
        let len: usize = address.unicode_len();
        let mut colons: usize = 0;
        let mut first: usize = 0;
        let mut i: usize = 0;
        while i < len
            invariant
                i <= len,
                len == address@.len(),
                colons == count_char(address@.subrange(0, i as int), ':'),
                colons <= i,
                colons > 0 ==> first < i && address@[first as int] == ':',
                colons > 0 ==> forall|j: int| 0 <= j < first ==> address@[j] != ':',
                colons == 0 ==> forall|j: int| 0 <= j < i ==> address@[j] != ':',
            decreases len - i,
        {
            assert(address@.subrange(0, i + 1).drop_last() =~= address@.subrange(0, i as int));
            if address.get_char(i) == ':' {
                if colons == 0 {
                    first = i;
                }
                colons += 1;
            }
            i += 1;
        }
        assert(address@.subrange(0, len as int) =~= address@);
        if colons != 1 {
            return Err(String::from_str("Invalid address format: expected 'host:port'"));
        }
        proof {
            lemma_find_char(address@, ':', first as int);
        }
        let host = address.substring_char(0, first);
        let port_text = address.substring_char(first + 1, len);
        match parse_u16(port_text) {
            Some(port) => Ok(Self::new(String::from_str(host), port)),
            None => {
                let mut message = String::from_str("Invalid port number: ");
                message.append(port_text);
                Err(message)
            },
        }
    }

    /// The address `host:port` under which the backend is reached.
    pub fn address(&self) -> (address: String)
        ensures
            address@ == address_of(self@.host, self@.port),
    {
        let mut address = self.host.clone();
        address.append(":");
        proof {
            reveal_strlit(":");
        }
        push_decimal(&mut address, self.port as u64);
        address
    }

    pub fn get_host(&self) -> (host: &str)
        ensures
            host@ == self@.host,
    {
        self.host.as_str()
    }

    pub fn get_port(&self) -> (port: u16)
        ensures
            port == self@.port,
    {
        self.port
    }

    /// The identifier of the backend.
    pub fn get_uuid(&self) -> (id: u128)
        ensures
            id == self@.id,
    {
        self.uuid
    }
}

} // verus!
