//! The network interface that is measured and the server that is asked: their paths and
//! addresses, and the checks that both are there.
use vstd::prelude::*;

use crate::text::{parse_trimmed, push_decimal};

verus! {

/// Why the benchmark cannot start.
#[derive(Debug)]
pub enum ClientError {
    /// The interface has no directory at `path`.
    InterfaceNotFound { iface: String, path: String },
    /// The server at `server_addr` could not be reached.
    ConnectFailed { server_addr: String, cause: String },
}

/// The directory that describes a network interface.
pub open spec fn interface_path_of(iface: Seq<char>) -> Seq<char> {
    "/sys/class/net/"@ + iface
}

/// The file that holds one counter of a network interface.
pub open spec fn net_stat_path_of(iface: Seq<char>, stat: Seq<char>) -> Seq<char> {
    interface_path_of(iface) + "/statistics/"@ + stat
}

/// The address of a server.
pub open spec fn server_addr_of(ip: Seq<char>, port: u16) -> Seq<char> {
    ip + ":"@ + crate::text::decimal(port as nat)
}

/// The number in a counter's file: zero where the file could not be read or holds none.
pub open spec fn net_stat_of(contents: Option<Seq<char>>) -> u64 {
    match contents {
        Some(text) => match crate::text::parsed(crate::text::trimmed(text)) {
            Some(value) => value,
            None => 0,
        },
        None => 0,
    }
}

impl ClientError {
    /// The error in words.
    pub open spec fn message_spec(&self) -> Seq<char> {
        match self {
            ClientError::InterfaceNotFound { iface, path } => "network interface '"@ + iface@
                + "' not found at "@ + path@,
            ClientError::ConnectFailed { server_addr, cause } =>
            "Failed to connect to server at "@ + server_addr@ + ": "@ + cause@,
        }
    }

    /// The error in words.
    pub fn message(&self) -> (text: String)
        ensures
            text@ == self.message_spec(),
    {
        let mut text = String::new();
        match self {
            ClientError::InterfaceNotFound { iface, path } => {
                text.append("network interface '");
                text.append(iface.as_str());
                text.append("' not found at ");
                text.append(path.as_str());
                assert(text@ =~= self.message_spec());
            },
            ClientError::ConnectFailed { server_addr, cause } => {
                text.append("Failed to connect to server at ");
                text.append(server_addr.as_str());
                text.append(": ");
                text.append(cause.as_str());
                assert(text@ =~= self.message_spec());
            },
        }
        text
    }
}

/// The directory that describes the network interface `iface`.
pub fn interface_path(iface: &str) -> (path: String)
    ensures
        path@ == interface_path_of(iface@),
{
    let mut path = String::new();
    path.append("/sys/class/net/");
    path.append(iface);
    assert(path@ =~= interface_path_of(iface@));
    path
}

/// Checks that there is an interface `iface`, where `is_dir` says whether a directory stands at
/// its path.
pub fn check_interface(iface: &str, is_dir: bool) -> (checked: Result<(), ClientError>)
    ensures
        checked is Ok <==> is_dir,
        checked matches Err(error) ==> (error matches ClientError::InterfaceNotFound {
            iface: name,
            path,
        } && name@ == iface@ && path@ == interface_path_of(iface@)),
{
    if !is_dir {
        return Err(
            ClientError::InterfaceNotFound {
                iface: iface.to_owned(),
                path: interface_path(iface),
            },
        );
    }
    Ok(())
}

/// The file that holds the counter `stat` of the network interface `iface`.
pub fn net_stat_path(iface: &str, stat: &str) -> (path: String)
    ensures
        path@ == net_stat_path_of(iface@, stat@),
{
    let mut path = interface_path(iface);
    path.append("/statistics/");
    path.append(stat);
    path
}

/// The number in a counter's file, whose contents are absent where it could not be read.
pub fn net_stat_value(contents: Option<&str>) -> (value: u64)
    ensures
        contents matches Some(text) ==> value == net_stat_of(Some(text@)),
        contents is None ==> value == net_stat_of(None),
{
    match contents {
        Some(text) => match parse_trimmed(text) {
            Some(value) => value,
            None => 0,
        },
        None => 0,
    }
}

/// The address of the server at `ip` and `port`.
pub fn server_addr(ip: &str, port: u16) -> (addr: String)
    ensures
        addr@ == server_addr_of(ip@, port),
{
    let mut addr = String::new();
    addr.append(ip);
    addr.append(":");
    push_decimal(&mut addr, port as u64);
    assert(addr@ =~= server_addr_of(ip@, port));
    addr
}

/// The URL under which the server at `server_addr` is asked.
pub fn server_url(server_addr: &str) -> (url: String)
    ensures
        url@ == "http://"@ + server_addr@,
{
    let mut url = String::new();
    url.append("http://");
    url.append(server_addr);
    assert(url@ =~= "http://"@ + server_addr@);
    url
}

/// Checks that the server at `server_addr` can be reached, given how the attempt ended.
pub fn check_connection(server_addr: &str, attempt: Result<(), String>) -> (checked: Result<
    (),
    ClientError,
>)
    ensures
        checked is Ok <==> attempt is Ok,
        checked matches Err(error) ==> (error matches ClientError::ConnectFailed {
            server_addr: addr,
            cause,
        } && addr@ == server_addr@ && cause@ == attempt->Err_0@),
{
    match attempt {
        Ok(()) => Ok(()),
        Err(cause) => Err(
            ClientError::ConnectFailed { server_addr: server_addr.to_owned(), cause },
        ),
    }
}

/// Different interfaces have different directories, and different counters of one interface
/// different files.
pub proof fn law_paths_are_distinct(
    iface1: Seq<char>,
    iface2: Seq<char>,
    stat1: Seq<char>,
    stat2: Seq<char>,
)
    ensures
        interface_path_of(iface1) == interface_path_of(iface2) ==> iface1 == iface2,
        net_stat_path_of(iface1, stat1) == net_stat_path_of(iface1, stat2) ==> stat1 == stat2,
{
    lemma_same_front("/sys/class/net/"@, iface1, iface2);
    lemma_same_front(interface_path_of(iface1) + "/statistics/"@, stat1, stat2);
}

proof fn lemma_same_front(front: Seq<char>, a: Seq<char>, b: Seq<char>)
    ensures
        front + a == front + b ==> a == b,
{
    if front + a == front + b {
        assert(a =~= (front + a).subrange(front.len() as int, (front + a).len() as int));
        assert(b =~= (front + b).subrange(front.len() as int, (front + b).len() as int));
    }
}

/// A counter's file that holds a number in decimal, with any white space around it, reads as
/// that number.
pub proof fn law_a_written_counter_reads_back(before: Seq<char>, n: u64, after: Seq<char>)
    requires
        forall|i: int| 0 <= i < before.len() ==> crate::text::is_white_space(#[trigger] before[i]),
        forall|i: int| 0 <= i < after.len() ==> crate::text::is_white_space(#[trigger] after[i]),
    ensures
        net_stat_of(Some(before + crate::text::decimal(n as nat) + after)) == n,
{
    crate::text::law_padded_decimal_reads_back(before, n, after);
}

/// Servers that differ in their port differ in their address.
pub proof fn law_addresses_tell_ports_apart(ip: Seq<char>, port1: u16, port2: u16)
    requires
        server_addr_of(ip, port1) == server_addr_of(ip, port2),
    ensures
        port1 == port2,
{
    lemma_same_front(
        ip + ":"@,
        crate::text::decimal(port1 as nat),
        crate::text::decimal(port2 as nat),
    );
    crate::text::law_decimal_is_injective(port1 as nat, port2 as nat);
}

/// A path names its interface and its counter whole: the interface stands right behind
/// `/sys/class/net/`, and the counter right behind `/statistics/`, which follows the interface.
pub proof fn law_paths_name_their_parts(iface: Seq<char>, stat: Seq<char>)
    ensures
        ({
            let path = interface_path_of(iface);
            &&& path.len() == 15 + iface.len()
            &&& path.subrange(0, 15) == "/sys/class/net/"@
            &&& path.subrange(15, path.len() as int) == iface
        }),
        ({
            let path = net_stat_path_of(iface, stat);
            let end = 15 + iface.len() as int;
            &&& path.len() == end + 12 + stat.len()
            &&& path.subrange(0, 15) == "/sys/class/net/"@
            &&& path.subrange(15, end) == iface
            &&& path.subrange(end, end + 12) == "/statistics/"@
            &&& path.subrange(end + 12, path.len() as int) == stat
        }),
{
    reveal_strlit("/sys/class/net/");
    reveal_strlit("/statistics/");
    let dir = interface_path_of(iface);
    let path = net_stat_path_of(iface, stat);
    let end = 15 + iface.len() as int;
    assert(dir.subrange(0, 15) =~= "/sys/class/net/"@);
    assert(dir.subrange(15, dir.len() as int) =~= iface);
    assert(path.subrange(0, 15) =~= "/sys/class/net/"@);
    assert(path.subrange(15, end) =~= iface);
    assert(path.subrange(end, end + 12) =~= "/statistics/"@);
    assert(path.subrange(end + 12, path.len() as int) =~= stat);
}

/// An address is the server's name, a colon, and digits that write exactly the port.
pub proof fn law_addresses_hold_name_and_port(ip: Seq<char>, port: u16)
    ensures
        ({
            let addr = server_addr_of(ip, port);
            let at = ip.len() as int;
            &&& addr.len() > at + 1
            &&& addr.subrange(0, at) == ip
            &&& addr[at] == ':'
            &&& crate::text::writes(addr.subrange(at + 1, addr.len() as int), port as nat)
        }),
{
    reveal_strlit(":");
    let addr = server_addr_of(ip, port);
    let digits = crate::text::decimal(port as nat);
    crate::text::law_one_text_writes_a_number(digits, port as nat);
    assert(addr.subrange(0, ip.len() as int) =~= ip);
    assert(addr.subrange(ip.len() as int + 1, addr.len() as int) =~= digits);
}

/// An error's words name everything that it holds.
pub proof fn law_errors_name_what_failed(error: ClientError)
    ensures
        ({
            let text = error.message_spec();
            match error {
                ClientError::InterfaceNotFound { iface, path } => {
                    let at = 19 + iface@.len() as int;
                    &&& text.len() == at + 15 + path@.len()
                    &&& text.subrange(0, 19) == "network interface '"@
                    &&& text.subrange(19, at) == iface@
                    &&& text.subrange(at, at + 15) == "' not found at "@
                    &&& text.subrange(at + 15, text.len() as int) == path@
                },
                ClientError::ConnectFailed { server_addr, cause } => {
                    let at = 31 + server_addr@.len() as int;
                    &&& text.len() == at + 2 + cause@.len()
                    &&& text.subrange(0, 31) == "Failed to connect to server at "@
                    &&& text.subrange(31, at) == server_addr@
                    &&& text.subrange(at, at + 2) == ": "@
                    &&& text.subrange(at + 2, text.len() as int) == cause@
                },
            }
        }),
{
    reveal_strlit("network interface '");
    reveal_strlit("' not found at ");
    reveal_strlit("Failed to connect to server at ");
    reveal_strlit(": ");
    let text = error.message_spec();
    match error {
        ClientError::InterfaceNotFound { iface, path } => {
            let at = 19 + iface@.len() as int;
            assert(text.subrange(0, 19) =~= "network interface '"@);
            assert(text.subrange(19, at) =~= iface@);
            assert(text.subrange(at, at + 15) =~= "' not found at "@);
            assert(text.subrange(at + 15, text.len() as int) =~= path@);
        },
        ClientError::ConnectFailed { server_addr, cause } => {
            let at = 31 + server_addr@.len() as int;
            assert(text.subrange(0, 31) =~= "Failed to connect to server at "@);
            assert(text.subrange(31, at) =~= server_addr@);
            assert(text.subrange(at, at + 2) =~= ": "@);
            assert(text.subrange(at + 2, text.len() as int) =~= cause@);
        },
    }
}

/// What a counter's file reads as: digits with white space around them, and with or without one
/// plus sign in front, read as the number that they write, and as zero where a `u64` cannot hold
/// it. A file that could not be read reads as zero.
pub proof fn law_counters_read_their_digits(
    before: Seq<char>,
    digits: Seq<char>,
    after: Seq<char>,
)
    requires
        forall|i: int| 0 <= i < before.len() ==> crate::text::is_white_space(#[trigger] before[i]),
        forall|i: int| 0 <= i < after.len() ==> crate::text::is_white_space(#[trigger] after[i]),
        digits.len() > 0,
        forall|i: int| 0 <= i < digits.len() ==> '0' <= #[trigger] digits[i] && digits[i] <= '9',
    ensures
        ({
            let value = crate::text::digits_value(digits);
            let read = net_stat_of(Some(before + digits + after));
            let signed = net_stat_of(Some(before + (seq!['+'] + digits) + after));
            &&& read == signed
            &&& value <= u64::MAX ==> read == value
            &&& value > u64::MAX ==> read == 0
        }),
        net_stat_of(None) == 0,
{
    let signed = seq!['+'] + digits;
    assert('0' <= digits[digits.len() - 1] && digits[digits.len() - 1] <= '9');
    assert(signed.last() == digits.last());
    crate::text::law_padding_is_cut_off(before, digits, after);
    crate::text::law_padding_is_cut_off(before, signed, after);
    crate::text::law_what_reads_as_a_number(digits, digits);
}

/// A counter's file that reads as more than zero holds digits that write that number, with or
/// without one plus sign in front, and nothing but white space around them.
pub proof fn law_only_digits_count(contents: Seq<char>)
    ensures
        net_stat_of(Some(contents)) > 0 ==> exists|i: int, j: int, digits: Seq<char>|
            {
                &&& 0 <= i <= j <= contents.len()
                &&& #[trigger] contents.subrange(i, j) == digits || contents.subrange(i, j) == seq![
                    '+',
                ] + digits
                &&& #[trigger] crate::text::digits_value(digits) == net_stat_of(Some(contents))
                &&& digits.len() > 0
                &&& forall|k: int|
                    0 <= k < digits.len() ==> '0' <= #[trigger] digits[k] && digits[k] <= '9'
                &&& forall|k: int|
                    0 <= k < i || j <= k < contents.len() ==> crate::text::is_white_space(
                        #[trigger] contents[k],
                    )
            },
{
    if net_stat_of(Some(contents)) > 0 {
        let middle = crate::text::trimmed(contents);
        crate::text::law_trimming_keeps_the_middle(contents);
        crate::text::law_what_reads_as_a_number(middle, middle);
        let (i, j) = choose|i: int, j: int|
            {
                &&& 0 <= i <= j <= contents.len()
                &&& middle == #[trigger] contents.subrange(i, j)
                &&& forall|k: int|
                    0 <= k < i || j <= k < contents.len() ==> crate::text::is_white_space(
                        #[trigger] contents[k],
                    )
                &&& i < j ==> !crate::text::is_white_space(contents[i])
                    && !crate::text::is_white_space(contents[j - 1])
            };
        let value = net_stat_of(Some(contents));
        let digits = choose|d: Seq<char>|
            {
                &&& d.len() > 0
                &&& middle == d || middle == seq!['+'] + d
                &&& forall|k: int| 0 <= k < d.len() ==> '0' <= #[trigger] d[k] && d[k] <= '9'
                &&& #[trigger] crate::text::digits_value(d) == value
            };
        assert(contents.subrange(i, j) == middle);
        assert(crate::text::digits_value(digits) == value);
    }
}

} // verus!
