//! Where an address leads: its host, and whether that is in a private network.
use vstd::prelude::*;

use crate::text;

verus! {

/// What follows the scheme of an address; nothing where it has none.
pub open spec fn behind_scheme(url: Seq<char>) -> Seq<char> {
    match text::leftmost(url, "://"@) {
        Some(scheme) => url.skip(scheme + 3),
        None => Seq::empty(),
    }
}

/// The host of an address: what follows the scheme and, up to where the path,
/// the query or the fragment begins, the last `@`, without the port. It is
/// empty where the address has no scheme.
pub open spec fn host_of(url: Seq<char>) -> Seq<char> {
    text::before_any(
        text::behind_last(text::before_any(behind_scheme(url), "/?#"@), '@'),
        ":"@,
    )
}

/// A number in decimal, a dot, and what follows it.
pub open spec fn then_dot(n: nat, rest: Seq<char>) -> Seq<char> {
    text::natural_text(n) + (seq!['.'] + rest)
}

/// Four numbers in decimal, with dots between them.
pub open spec fn dotted(a: nat, b: nat, c: nat, d: nat) -> Seq<char> {
    then_dot(a, then_dot(b, then_dot(c, text::natural_text(d))))
}

/// Addresses that begin with these two numbers belong to private networks:
/// 10.0.0.0/8, 172.16.0.0/12 and 192.168.0.0/16.
pub open spec fn private_block(a: nat, b: nat) -> bool {
    ||| a == 10
    ||| a == 172 && 16 <= b <= 31
    ||| a == 192 && b == 168
}

/// The four numbers of an address of a private network.
pub open spec fn private_numbers(a: nat, b: nat, c: nat, d: nat) -> bool {
    a <= 255 && b <= 255 && c <= 255 && d <= 255 && private_block(a, b)
}

/// The host is the numeric address of a private network.
pub open spec fn is_private_host(host: Seq<char>) -> bool {
    exists|a: nat, b: nat, c: nat, d: nat|
        private_numbers(a, b, c, d) && host == #[trigger] dotted(a, b, c, d)
}

/// The character is a decimal digit.
spec fn is_digit(c: char) -> bool {
    '0' <= c && c <= '9'
}

spec fn all_digits(chars: Seq<char>) -> bool {
    forall|i: int| 0 <= i < chars.len() ==> is_digit(#[trigger] chars[i])
}

/// The number that digits stand for.
spec fn value_of(chars: Seq<char>) -> int
    decreases chars.len(),
{
    if chars.len() == 0 {
        0
    } else {
        value_of(chars.drop_last()) * 10 + (chars.last() as int - '0' as int)
    }
}

proof fn natural_is_read_back(n: nat)
    ensures
        all_digits(text::natural_text(n)),
        value_of(text::natural_text(n)) == n,
        text::natural_text(n).len() > 0,
    decreases n,
{
    let chars = text::natural_text(n);
    if n < 10 {
        assert(chars.drop_last() =~= Seq::<char>::empty());
        assert(value_of(chars.drop_last()) == 0);
    } else {
        natural_is_read_back(n / 10);
        assert(chars.drop_last() =~= text::natural_text(n / 10));
    }
}

proof fn small_naturals_are_short(n: nat)
    requires
        n <= 255,
    ensures
        text::natural_text(n).len() <= 3,
{
    reveal_with_fuel(text::natural_text, 3);
}

proof fn digits_have_no_dot(chars: Seq<char>)
    requires
        all_digits(chars),
    ensures
        !chars.contains('.'),
{
    if chars.contains('.') {
        let i = choose|i: int| 0 <= i < chars.len() && chars[i] == '.';
        assert(is_digit(chars[i]));
    }
}

/// A text is cut at its first dot in one way only.
proof fn first_dot_is_unique(a: Seq<char>, b: Seq<char>, c: Seq<char>, d: Seq<char>)
    requires
        !a.contains('.'),
        !c.contains('.'),
        a + (seq!['.'] + b) == c + (seq!['.'] + d),
    ensures
        a == c,
        b == d,
{
    let whole = a + (seq!['.'] + b);
    assert(whole[a.len() as int] == '.');
    assert(whole[c.len() as int] == '.');
    if a.len() < c.len() {
        assert(c[a.len() as int] == '.');
    } else if c.len() < a.len() {
        assert(a[c.len() as int] == '.');
    }
    assert(a =~= whole.take(a.len() as int));
    assert(c =~= whole.take(c.len() as int));
    assert(b =~= whole.skip(a.len() as int + 1));
    assert(d =~= whole.skip(c.len() as int + 1));
}

/// A number before a dot, and what follows the dot, can be told apart.
proof fn then_dot_is_unique(n: nat, rest: Seq<char>, m: nat, other: Seq<char>)
    requires
        then_dot(n, rest) == then_dot(m, other),
    ensures
        n == m,
        rest == other,
{
    natural_is_read_back(n);
    natural_is_read_back(m);
    digits_have_no_dot(text::natural_text(n));
    digits_have_no_dot(text::natural_text(m));
    first_dot_is_unique(text::natural_text(n), rest, text::natural_text(m), other);
}

/// The host of an address.
pub fn host<'a>(url: &'a str) -> (name: &'a str)
    ensures
        name@ == host_of(url@),
{
    proof {
        reveal_strlit("://");
        reveal_strlit("");
    }
    let rest = match text::find(url, "://") {
        Some(scheme) => {
            let length: usize = url.unicode_len();
            let rest = url.substring_char(scheme + 3, length);
            assert(rest@ == url@.skip(scheme + 3));
            rest
        },
        None => "",
    };
    assert(rest@ =~= behind_scheme(url@));
    text::until_any(text::after_last(text::until_any(rest, "/?#"), '@'), ":")
}

/// Cuts a text at its first dot.
fn cut_at_dot<'a>(name: &'a str) -> (parts: Option<(&'a str, &'a str)>)
    ensures
        match parts {
            Some((head, tail)) => !head@.contains('.') && name@ == head@ + (seq!['.'] + tail@),
            None => !name@.contains('.'),
        },
{
    let chars = text::characters(name);
    let mut at: usize = 0;
    while at < chars.len()
        invariant
            chars@ == name@,
            at <= chars.len(),
            forall|i: int| 0 <= i < at ==> chars[i] != '.',
        decreases chars.len() - at,
    {
        if chars[at] == '.' {
            let head = name.substring_char(0, at);
            let tail = name.substring_char(at + 1, chars.len());
            assert(name@ =~= head@ + (seq!['.'] + tail@));
            return Some((head, tail));
        }
        at += 1;
    }
    None
}

/// The number from 0 to 255 that a text is in decimal, if it is one.
fn octet(part: &str) -> (number: Option<u64>)
    ensures
        match number {
            Some(n) => n <= 255 && part@ == text::natural_text(n as nat),
            None => forall|n: nat| n <= 255 ==> part@ != #[trigger] text::natural_text(n),
        },
{
    let chars = text::characters(part);
    proof {
        assert forall|n: nat| n <= 255 && part@ == #[trigger] text::natural_text(n) implies {
            &&& part@.len() <= 3
            &&& all_digits(part@)
            &&& value_of(part@) == n
        } by {
            natural_is_read_back(n);
            small_naturals_are_short(n);
        }
    }
    if chars.len() > 3 {
        return None;
    }
    let mut number: u64 = 0;
    let mut i: usize = 0;
    while i < chars.len()
        invariant
            chars@ == part@,
            i <= chars.len() <= 3,
            number == value_of(part@.take(i as int)),
            i == 0 ==> number == 0,
            i == 1 ==> number <= 9,
            i == 2 ==> number <= 99,
            i == 3 ==> number <= 999,
            forall|n: nat|
                n <= 255 && part@ == #[trigger] text::natural_text(n) ==> all_digits(part@)
                    && value_of(part@) == n,
        decreases chars.len() - i,
    {
        let c = chars[i];
        if !('0' <= c && c <= '9') {
            assert(!is_digit(part@[i as int]));
            return None;
        }
        assert(part@.take(i + 1).drop_last() =~= part@.take(i as int));
        number = number * 10 + (c as u64 - '0' as u64);
        i += 1;
    }
    assert(part@.take(chars.len() as int) =~= part@);
    if number <= 255 && text::same(text::natural(number).as_str(), part) {
        Some(number)
    } else {
        None
    }
}

/// The number from 0 to 255 with which a text begins before a dot, and what
/// follows the dot, if the text is so made.
fn number_and_rest<'a>(name: &'a str) -> (parts: Option<(u64, &'a str)>)
    ensures
        match parts {
            Some((n, rest)) => n <= 255 && name@ == then_dot(n as nat, rest@),
            None => forall|n: nat, rest: Seq<char>|
                n <= 255 ==> name@ != #[trigger] then_dot(n, rest),
        },
{
    let cut = cut_at_dot(name);
    proof {
        assert forall|n: nat, rest: Seq<char>| name@ == #[trigger] then_dot(n, rest) implies (cut matches Some(
            (head, _),
        ) && head@ == text::natural_text(n)) by {
            natural_is_read_back(n);
            digits_have_no_dot(text::natural_text(n));
            assert(name@[text::natural_text(n).len() as int] == '.');
            match cut {
                Some((head, tail)) => {
                    first_dot_is_unique(head@, tail@, text::natural_text(n), rest);
                },
                None => {},
            }
        }
    }
    match cut {
        Some((head, rest)) => match octet(head) {
            Some(n) => Some((n, rest)),
            None => None,
        },
        None => None,
    }
}

/// The four numbers of a host that is a numeric address.
fn numbers(name: &str) -> (address: Option<(u64, u64, u64, u64)>)
    ensures
        match address {
            Some((a, b, c, d)) => {
                &&& a <= 255 && b <= 255 && c <= 255 && d <= 255
                &&& name@ == dotted(a as nat, b as nat, c as nat, d as nat)
            },
            None => forall|a: nat, b: nat, c: nat, d: nat|
                a <= 255 && b <= 255 && c <= 255 && d <= 255 ==> name@ != #[trigger] dotted(
                    a,
                    b,
                    c,
                    d,
                ),
        },
{
    let (a, behind_a) = match number_and_rest(name) {
        Some(parts) => parts,
        None => {
            return None;
        },
    };
    proof {
        assert forall|a1: nat, b1: nat, c1: nat, d1: nat|
            name@ == #[trigger] dotted(a1, b1, c1, d1) implies behind_a@ == then_dot(
            b1,
            then_dot(c1, text::natural_text(d1)),
        ) by {
            then_dot_is_unique(
                a as nat,
                behind_a@,
                a1,
                then_dot(b1, then_dot(c1, text::natural_text(d1))),
            );
        }
    }
    let (b, behind_b) = match number_and_rest(behind_a) {
        Some(parts) => parts,
        None => {
            return None;
        },
    };
    proof {
        assert forall|a1: nat, b1: nat, c1: nat, d1: nat|
            name@ == #[trigger] dotted(a1, b1, c1, d1) implies behind_b@ == then_dot(
            c1,
            text::natural_text(d1),
        ) by {
            then_dot_is_unique(b as nat, behind_b@, b1, then_dot(c1, text::natural_text(d1)));
        }
    }
    let (c, last) = match number_and_rest(behind_b) {
        Some(parts) => parts,
        None => {
            return None;
        },
    };
    proof {
        assert forall|a1: nat, b1: nat, c1: nat, d1: nat|
            name@ == #[trigger] dotted(a1, b1, c1, d1) implies last@ == text::natural_text(d1) by {
            then_dot_is_unique(c as nat, last@, c1, text::natural_text(d1));
        }
    }
    match octet(last) {
        Some(d) => Some((a, b, c, d)),
        None => None,
    }
}

/// A numeric address is written in one way only.
pub proof fn dotted_is_unique(
    a: nat,
    b: nat,
    c: nat,
    d: nat,
    a1: nat,
    b1: nat,
    c1: nat,
    d1: nat,
)
    requires
        dotted(a, b, c, d) == dotted(a1, b1, c1, d1),
    ensures
        a == a1,
        b == b1,
        c == c1,
        d == d1,
{
    let behind_b = then_dot(c, text::natural_text(d));
    let behind_b1 = then_dot(c1, text::natural_text(d1));
    then_dot_is_unique(a, then_dot(b, behind_b), a1, then_dot(b1, behind_b1));
    then_dot_is_unique(b, behind_b, b1, behind_b1);
    then_dot_is_unique(c, text::natural_text(d), c1, text::natural_text(d1));
    natural_is_read_back(d);
    natural_is_read_back(d1);
}

/// Whether a host is the numeric address of a private network.
pub fn private_address(name: &str) -> (private: bool)
    ensures
        private == is_private_host(name@),
{
    match numbers(name) {
        Some((a, b, c, d)) => {
            let private = a == 10 || (a == 172 && 16 <= b && b <= 31) || (a == 192 && b == 168);
            proof {
                if private {
                    assert(private_numbers(a as nat, b as nat, c as nat, d as nat));
                }
                if is_private_host(name@) {
                    let (a1, b1, c1, d1) = choose|a1: nat, b1: nat, c1: nat, d1: nat|
                        private_numbers(a1, b1, c1, d1) && name@ == #[trigger] dotted(
                            a1,
                            b1,
                            c1,
                            d1,
                        );
                    dotted_is_unique(
                        a as nat,
                        b as nat,
                        c as nat,
                        d as nat,
                        a1,
                        b1,
                        c1,
                        d1,
                    );
                }
            }
            private
        },
        None => false,
    }
}

/// Whether an address leads to the numeric address of a private network.
pub fn private_host(url_lower: &str) -> (private: bool)
    ensures
        private == is_private_host(host_of(url_lower@)),
{
    private_address(host(url_lower))
}

/// The host of an address without a user name: what stands between the scheme
/// and the port, if one is given, or the path, the query or the fragment.
pub proof fn host_of_plain_address(
    scheme: Seq<char>,
    name: Seq<char>,
    port: Seq<char>,
    rest: Seq<char>,
)
    requires
        !scheme.contains(':'),
        forall|i: int|
            0 <= i < name.len() ==> #[trigger] name[i] != '/' && name[i] != '?' && name[i] != '#'
                && name[i] != '@' && name[i] != ':',
        forall|i: int|
            0 <= i < port.len() ==> #[trigger] port[i] != '/' && port[i] != '?' && port[i] != '#'
                && port[i] != '@',
        port.len() > 0 ==> port[0] == ':',
        rest.len() > 0 ==> rest[0] == '/' || rest[0] == '?' || rest[0] == '#',
    ensures
        host_of(scheme + "://"@ + name + port + rest) == name,
{
    reveal_strlit("://");
    reveal_strlit("/?#");
    reveal_strlit(":");
    let url = scheme + "://"@ + name + port + rest;
    let at = scheme.len() as int;
    assert(url.subrange(at, at + 3) =~= "://"@);
    assert forall|earlier: int| earlier < at implies !text::occurs_at(url, "://"@, earlier) by {
        if text::occurs_at(url, "://"@, earlier) {
            assert(url.subrange(earlier, earlier + 3)[0] == ':');
            assert(scheme[earlier] == ':');
        }
    }
    text::leftmost_is_unique(url, "://"@, at);
    let behind = behind_scheme(url);
    let place = name + port;
    assert(behind =~= place + rest);
    let end = place.len() as int;
    assert("/?#"@[0] == '/' && "/?#"@[1] == '?' && "/?#"@[2] == '#');
    assert forall|i: int| 0 <= i < end implies !"/?#"@.contains(#[trigger] behind[i]) && place[i]
        != '@' by {
        assert(behind[i] == place[i]);
        if i < name.len() {
            assert(place[i] == name[i]);
        } else {
            assert(place[i] == port[i - name.len()]);
        }
    }
    text::stop_is_first(behind, "/?#"@, 0, end);
    assert(text::before_any(behind, "/?#"@) =~= place);
    text::no_mark_before(place, '@', end);
    assert(text::behind_last(place, '@') =~= place);
    assert(":"@[0] == ':');
    assert forall|i: int| 0 <= i < name.len() implies !":"@.contains(#[trigger] place[i]) by {
        assert(place[i] == name[i]);
    }
    text::stop_is_first(place, ":"@, 0, name.len() as int);
    assert(place.take(name.len() as int) =~= name);
}

/// A numeric address holds digits and dots only.
pub proof fn dotted_is_plain(a: nat, b: nat, c: nat, d: nat)
    ensures
        forall|i: int|
            0 <= i < dotted(a, b, c, d).len() ==> ('0' <= #[trigger] dotted(a, b, c, d)[i]
                && dotted(a, b, c, d)[i] <= '9') || dotted(a, b, c, d)[i] == '.',
{
    natural_is_read_back(a);
    natural_is_read_back(b);
    natural_is_read_back(c);
    natural_is_read_back(d);
    assert forall|i: int| 0 <= i < dotted(a, b, c, d).len() implies is_digit(
        #[trigger] dotted(a, b, c, d)[i],
    ) || dotted(a, b, c, d)[i] == '.' by {
        let first = text::natural_text(a);
        let second = text::natural_text(b);
        let third = text::natural_text(c);
        let last = text::natural_text(d);
        let j = i - first.len() - 1;
        let k = j - second.len() - 1;
        let l = k - third.len() - 1;
        if i < first.len() {
            assert(is_digit(first[i]));
        } else if 0 <= j < second.len() {
            assert(is_digit(second[j]));
        } else if 0 <= k < third.len() {
            assert(is_digit(third[k]));
        } else if 0 <= l {
            assert(is_digit(last[l]));
        }
    }
}

} // verus!
