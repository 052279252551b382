//! Socket addresses written as text: an IPv4 prefix followed by a port in
//! decimal.

use vstd::prelude::*;

verus! {

/// The character of a decimal digit.
pub open spec fn digit_char(d: nat) -> char
    recommends
        d < 10,
{
    (('0' as nat) + d) as char
}

/// The decimal digits of a natural number, most significant first, with no
/// leading zeros.
pub open spec fn decimal_nat(n: nat) -> Seq<char>
    decreases n,
{
    if n < 10 {
        seq![digit_char(n)]
    } else {
        decimal_nat(n / 10).push(digit_char(n % 10))
    }
}

/// An integer in decimal, with a leading `-` when it is negative.
pub open spec fn decimal(n: int) -> Seq<char> {
    if n < 0 {
        seq!['-'] + decimal_nat((-n) as nat)
    } else {
        decimal_nat(n as nat)
    }
}

/// The text of `ipv4` immediately followed by `port` in decimal.
pub open spec fn socket_addr_spec(ipv4: Seq<char>, port: int) -> Seq<char> {
    ipv4 + decimal(port)
}

proof fn lemma_decimal_nat_shape(n: nat)
    ensures
        decimal_nat(n).len() >= 1,
        n >= 10 ==> decimal_nat(n).len() >= 2,
        '0' <= decimal_nat(n)[0] <= '9',
    decreases n,
{
    if n >= 10 {
        lemma_decimal_nat_shape(n / 10);
    }
}

proof fn lemma_decimal_nat_injective(a: nat, b: nat)
    requires
        decimal_nat(a) == decimal_nat(b),
    ensures
        a == b,
    decreases a,
{
    lemma_decimal_nat_shape(a);
    lemma_decimal_nat_shape(b);
    if a >= 10 && b >= 10 {
        let da = decimal_nat(a);
        assert(da.last() == digit_char(a % 10));
        assert(decimal_nat(b).last() == digit_char(b % 10));
        assert(a % 10 == b % 10);
        assert(decimal_nat(a / 10) =~= da.drop_last());
        assert(decimal_nat(b / 10) =~= decimal_nat(b).drop_last());
        lemma_decimal_nat_injective(a / 10, b / 10);
    }
}

/// Different numbers are written differently.
pub proof fn lemma_decimal_injective(a: int, b: int)
    requires
        a != b,
    ensures
        decimal(a) != decimal(b),
{
    if decimal(a) == decimal(b) {
        if a < 0 && b < 0 {
            lemma_decimal_nat_shape((-a) as nat);
            assert(decimal_nat((-a) as nat) =~= decimal(a).skip(1));
            assert(decimal_nat((-b) as nat) =~= decimal(b).skip(1));
            lemma_decimal_nat_injective((-a) as nat, (-b) as nat);
        } else if a >= 0 && b >= 0 {
            lemma_decimal_nat_injective(a as nat, b as nat);
        } else if a < 0 {
            lemma_decimal_nat_shape(b as nat);
            assert(decimal(a)[0] == '-');
        } else {
            lemma_decimal_nat_shape(a as nat);
            assert(decimal(b)[0] == '-');
        }
    }
}

/// Two addresses with the same prefix are equal only when their ports are.
pub proof fn lemma_socket_addr_injective(ipv4: Seq<char>, p: int, q: int)
    requires
        p != q,
    ensures
        socket_addr_spec(ipv4, p) != socket_addr_spec(ipv4, q),
{
    lemma_decimal_injective(p, q);
    if socket_addr_spec(ipv4, p) == socket_addr_spec(ipv4, q) {
        assert(socket_addr_spec(ipv4, p).skip(ipv4.len() as int) =~= decimal(p));
        assert(socket_addr_spec(ipv4, q).skip(ipv4.len() as int) =~= decimal(q));
    }
}

/// A one-character text holding the digit `d`.
fn digit_str(d: u32) -> (s: &'static str)
    requires
        d < 10,
    ensures
        s@ == seq![digit_char(d as nat)],
{
    proof {
        reveal_strlit("0");
        reveal_strlit("1");
        reveal_strlit("2");
        reveal_strlit("3");
        reveal_strlit("4");
        reveal_strlit("5");
        reveal_strlit("6");
        reveal_strlit("7");
        reveal_strlit("8");
        reveal_strlit("9");
    }
    if d == 0 {
        "0"
    } else if d == 1 {
        "1"
    } else if d == 2 {
        "2"
    } else if d == 3 {
        "3"
    } else if d == 4 {
        "4"
    } else if d == 5 {
        "5"
    } else if d == 6 {
        "6"
    } else if d == 7 {
        "7"
    } else if d == 8 {
        "8"
    } else {
        "9"
    }
}

/// Appends `n` in decimal to `s`.
fn push_decimal(s: &mut String, n: u32)
    ensures
        final(s)@ == old(s)@ + decimal_nat(n as nat),
    decreases n,
{
    if n >= 10 {
        push_decimal(s, n / 10);
    }
    s.append(digit_str(n % 10));
    assert(final(s)@ =~= old(s)@ + decimal_nat(n as nat));
}

/// The address `ipv4` followed by `port` in decimal, as `"0.0.0.0:"` and
/// `3334` give `"0.0.0.0:3334"`.
pub fn socket_addr(ipv4: &str, port: i32) -> (addr: String)
    ensures
        addr@ == socket_addr_spec(ipv4@, port as int),
{
    let mut addr = String::from_str(ipv4);
    if port < 0 {
        proof {
            reveal_strlit("-");
        }
        addr.append("-");
        let magnitude: u32 = (0i64 - port as i64) as u32;
        push_decimal(&mut addr, magnitude);
        assert(addr@ =~= socket_addr_spec(ipv4@, port as int));
    } else {
        push_decimal(&mut addr, port as u32);
    }
    addr
}

/// The address `host:port`, as the clients write the controller's address.
pub fn host_port(host: &str, port: &str) -> (addr: String)
    ensures
        addr@ == host@ + ":"@ + port@,
{
    proof {
        reveal_strlit(":");
    }
    let mut addr = String::from_str(host);
    addr.append(":");
    addr.append(port);
    addr
}

} // verus!
