//! Network addresses: those that a node listens at, and those of relays.

use vstd::prelude::*;
use vstd::string::StringExecFns;

verus! {

/// What stands before the port in the address that a node listens at.
pub const LISTEN_PREFIX: &'static str = "/ip4/0.0.0.0/tcp/";

/// The decimal digit `d`.
pub open spec fn digit(d: nat) -> char {
    (48 + d) as char
}

/// `n` in decimal notation.
pub open spec fn decimal(n: nat) -> Seq<char>
    decreases n,
{
    if n < 10 {
        seq![digit(n)]
    } else {
        decimal(n / 10).push(digit(n % 10))
    }
}

/// The address of all interfaces of this machine, at a TCP port.
pub open spec fn listen_address_of(port: u16) -> Seq<char> {
    LISTEN_PREFIX@ + decimal(port as nat)
}

/// The components of a multiaddress, as `libp2p::Multiaddr` parses them: for each the peer
/// id that it names in its text form, or `None` if it is a component of another kind. If the
/// text is no multiaddress, what the parser says is wrong with it.
pub uninterp spec fn parsed_address(address: Seq<char>) -> Result<
    Seq<Option<Seq<char>>>,
    Seq<char>,
>;

/// What the result of parsing an address holds.
pub open spec fn parse_view(r: Result<Vec<Option<String>>, String>) -> Result<
    Seq<Option<Seq<char>>>,
    Seq<char>,
> {
    match r {
        Ok(parts) => Ok(parts_view(parts@)),
        Err(reason) => Err(reason@),
    }
}

/// What a list of components holds.
pub open spec fn parts_view(parts: Seq<Option<String>>) -> Seq<Option<Seq<char>>> {
    parts.map_values(|part: Option<String>| text_view(part))
}

/// What an optional text holds.
pub open spec fn text_view(text: Option<String>) -> Option<Seq<char>> {
    match text {
        Some(s) => Some(s@),
        None => None,
    }
}

/// The first peer id among the components of an address.
pub open spec fn first_peer_of(parts: Seq<Option<Seq<char>>>) -> Option<Seq<char>>
    decreases parts.len(),
{
    if parts.len() == 0 {
        None
    } else if parts[0] is Some {
        parts[0]
    } else {
        first_peer_of(parts.drop_first())
    }
}

/// Calls the `FromStr` implementation of `libp2p::Multiaddr`, and `Multiaddr::iter` on what
/// it returns. Both depend on the text alone. Of each component it keeps the peer id that
/// it names, if it is one that names a peer; of an error the text that `Debug` prints.
#[verifier::external_body]
pub(crate) fn parse_address(address: &str) -> (r: Result<Vec<Option<String>>, String>)
    ensures
        parsed_address(address@) == parse_view(r),
{
    let parsed = address.parse::<libp2p::Multiaddr>().map_err(|e| format!("{e:?}"))?;
    let parts = parsed.iter().map(|part| match part {
        libp2p::multiaddr::Protocol::P2p(peer) => Some(peer.to_string()),
        _ => None,
    });
    Ok(parts.collect())
}

/// The digit `d` as a text.
fn digit_text(d: u64) -> (r: &'static str)
    requires
        d < 10,
    ensures
        r@ == seq![digit(d as nat)],
{
    proof {
        reveal_strlit("0");
        reveal_strlit("1");
        reveal_strlit("2");
        reveal_strlit("3");
        reveal_strlit("4");
        reveal_strlit("5");
        reveal_strlit("6");
        reveal_strlit("7");
        reveal_strlit("8");
        reveal_strlit("9");
    }
    match d {
        0 => "0",
        1 => "1",
        2 => "2",
        3 => "3",
        4 => "4",
        5 => "5",
        6 => "6",
        7 => "7",
        8 => "8",
        _ => "9",
    }
}

/// `n` in decimal notation.
pub fn decimal_text(n: u64) -> (r: String)
    ensures
        r@ == decimal(n as nat),
        decimal_value(r@) == n,
    decreases n,
{
    proof {
        decimal_reads_back(n as nat);
    }
    if n < 10 {
        digit_text(n).to_owned()
    } else {
        let mut text = decimal_text(n / 10);
        text.append(digit_text(n % 10));
        assert(text@ =~= decimal(n as nat));
        text
    }
}

/// The address of all interfaces of this machine, at a TCP port.
pub fn listen_address(port: u16) -> (r: String)
    ensures
        r@ == listen_address_of(port),
        r@.take(17) == "/ip4/0.0.0.0/tcp/"@,
        decimal_value(r@.skip(17)) == port,
{
    proof {
        address_names_its_port(port);
    }
    LISTEN_PREFIX.to_owned().concat(decimal_text(port as u64).as_str())
}

/// The first peer id among the components of an address.
pub fn first_peer(parts: &Vec<Option<String>>) -> (r: Option<String>)
    ensures
        text_view(r) == first_peer_of(parts_view(parts@)),
        r is None <==> forall|j: int| 0 <= j < parts@.len() ==> (#[trigger] parts@[j]) is None,
        r matches Some(peer) ==> exists|i: int|
            0 <= i < parts@.len() && (#[trigger] parts@[i]) is Some && parts@[i].unwrap()@ == peer@
                && forall|j: int| 0 <= j < i ==> (#[trigger] parts@[j]) is None,
{
    let ghost all = parts_view(parts@);
    assert(all.skip(0) =~= all);
    let mut i: usize = 0;
    while i < parts.len()
        invariant
            i <= parts.len(),
            all == parts_view(parts@),
            first_peer_of(all.skip(i as int)) == first_peer_of(all),
            forall|j: int| 0 <= j < i ==> (#[trigger] parts@[j]) is None,
        decreases parts.len() - i,
    {
        assert(all.skip(i as int)[0] == text_view(parts@[i as int]));
        assert(all.skip(i as int).drop_first() =~= all.skip(i + 1));
        if let Some(peer) = &parts[i] {
            assert(parts@[i as int] is Some);
            return Some(peer.clone());
        }
        i = i + 1;
    }
    None
}

/// The number that a row of decimal digits stands for.
pub open spec fn decimal_value(text: Seq<char>) -> int
    decreases text.len(),
{
    if text.len() == 0 {
        0
    } else {
        10 * decimal_value(text.drop_last()) + (text.last() as int - 48)
    }
}

/// Reading the decimal notation of a number gives the number back.
pub proof fn decimal_reads_back(n: nat)
    ensures
        decimal_value(decimal(n)) == n,
    decreases n,
{
    reveal_with_fuel(decimal_value, 2);
    if n >= 10 {
        decimal_reads_back(n / 10);
        assert(decimal(n).drop_last() =~= decimal(n / 10));
    }
}

/// Nodes that listen at different ports listen at different addresses.
pub proof fn listen_addresses_differ(a: u16, b: u16)
    requires
        listen_address_of(a) == listen_address_of(b),
    ensures
        a == b,
{
    let prefix = LISTEN_PREFIX@;
    assert(listen_address_of(a).skip(prefix.len() as int) =~= decimal(a as nat));
    assert(listen_address_of(b).skip(prefix.len() as int) =~= decimal(b as nat));
    decimal_reads_back(a as nat);
    decimal_reads_back(b as nat);
}

/// A row of digits stands for ten times what it stands for without its last digit, and the
/// value of that digit; no digits stand for zero.
pub proof fn digits_are_read_in_tens(text: Seq<char>, last: char)
    ensures
        decimal_value(Seq::empty()) == 0,
        decimal_value(text.push(last)) == 10 * decimal_value(text) + (last as int - '0' as int),
{
    assert(text.push(last).drop_last() =~= text);
}

/// The decimal notation of a number is digits, and the first of them is zero only if it is
/// the only one.
pub proof fn decimal_notation_is_digits(n: nat)
    ensures
        decimal(n).len() > 0,
        forall|i: int| 0 <= i < decimal(n).len() ==> '0' <= (#[trigger] decimal(n)[i]) <= '9',
        decimal(n)[0] == '0' ==> n == 0,
        n == 0 ==> decimal(n).len() == 1,
    decreases n,
{
    if n >= 10 {
        decimal_notation_is_digits(n / 10);
    }
}

/// The address that a node listens at names its port, whatever the port is: it is
/// `/ip4/0.0.0.0/tcp/` and then digits only, which are the port in decimal notation.
pub proof fn address_names_its_port(port: u16)
    ensures
        listen_address_of(port).len() > 17,
        listen_address_of(port).take(17) == "/ip4/0.0.0.0/tcp/"@,
        forall|i: int|
            17 <= i < listen_address_of(port).len() ==> '0' <= (#[trigger] listen_address_of(
                port,
            )[i]) <= '9',
        decimal_value(listen_address_of(port).skip(17)) == port,
        port > 0 ==> listen_address_of(port)[17] != '0',
        port == 0 ==> listen_address_of(port).len() == 18,
{
    let address = listen_address_of(port);
    let digits = decimal(port as nat);
    reveal_strlit("/ip4/0.0.0.0/tcp/");
    assert(address.take(17) =~= "/ip4/0.0.0.0/tcp/"@);
    assert(address.skip(17) =~= digits);
    decimal_reads_back(port as nat);
    decimal_notation_is_digits(port as nat);
    assert forall|i: int| 17 <= i < address.len() implies '0' <= (#[trigger] address[i])
        <= '9' by {
        assert(address[i] == digits[i - 17]);
    }
    assert(address[17] == digits[0]);
}

/// The peer of an address is the one that the first of its components that names a peer
/// names, and there is none exactly if no component names one.
pub proof fn first_peer_comes_before_all_others(parts: Seq<Option<Seq<char>>>)
    ensures
        first_peer_of(parts) is None <==> forall|j: int|
            0 <= j < parts.len() ==> (#[trigger] parts[j]) is None,
        forall|i: int|
            0 <= i < parts.len() && (#[trigger] parts[i]) is Some && (forall|j: int|
                0 <= j < i ==> (#[trigger] parts[j]) is None) ==> first_peer_of(parts) == parts[i],
    decreases parts.len(),
{
    if parts.len() > 0 {
        let behind = parts.drop_first();
        first_peer_comes_before_all_others(behind);
        if parts[0] is None {
            assert forall|i: int|
                0 <= i < parts.len() && (#[trigger] parts[i]) is Some && (forall|j: int|
                    0 <= j < i ==> (#[trigger] parts[j]) is None) implies first_peer_of(parts)
                == parts[i] by {
                assert(behind[i - 1] == parts[i]);
                assert forall|j: int| 0 <= j < i - 1 implies (#[trigger] behind[j]) is None by {
                    assert(behind[j] == parts[j + 1]);
                }
            }
            if first_peer_of(parts) is None {
                assert forall|j: int| 0 <= j < parts.len() implies (
                #[trigger] parts[j]) is None by {
                    if j > 0 {
                        assert(behind[j - 1] == parts[j]);
                    }
                }
            } else {
                let j = choose|j: int| 0 <= j < behind.len() && (#[trigger] behind[j]) is Some;
                assert(parts[j + 1] is Some);
            }
        }
    }
}

/// What a list of components is taken to hold is, component by component, the text that is
/// there.
pub proof fn parts_view_goes_part_by_part(parts: Seq<Option<String>>)
    ensures
        parts_view(parts).len() == parts.len(),
        forall|i: int|
            0 <= i < parts.len() ==> match (#[trigger] parts[i]) {
                Some(text) => parts_view(parts)[i] == Some(text@),
                None => parts_view(parts)[i] is None,
            },
{
}

/// The result of parsing an address is taken to hold what it holds: the components, each as
/// it is, or the reason, word for word.
pub proof fn parse_view_keeps_the_result(r: Result<Vec<Option<String>>, String>)
    ensures
        r matches Err(reason) ==> parse_view(r) == Err::<Seq<Option<Seq<char>>>, Seq<char>>(
            reason@,
        ),
        r matches Ok(parts) ==> (parse_view(r) matches Ok(seen) && seen.len() == parts@.len()
            && forall|i: int|
            0 <= i < seen.len() ==> match (#[trigger] parts@[i]) {
                Some(text) => seen[i] == Some(text@),
                None => seen[i] is None,
            }),
{
}

} // verus!
