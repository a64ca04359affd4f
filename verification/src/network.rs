//! Network resources of a VM: its MAC address, its subnet, the name of its
//! TAP device, and the commands that set up and take down its host side.

use rand::Rng;
use std::hash::Hasher;
use vstd::prelude::*;
use vstd::string::*;

use crate::error::{Error, Result};
use crate::text::{
    decimal, find, find_from, first_match, first_match_from, from_chars, has_prefix, hex_fixed,
    is_digit, is_hex_digit, lemma_hex_fixed, lines, lines_of, match_at, opt_text, pair,
    parse_number, parse_unsigned, push_hex, slice, starts_with, to_chars, to_decimal, trim,
    trimmed, views_of,
};
use crate::util::{
    args, cmd, command, commands, no_args, no_commands, push_arg, push_command, sequence, strs,
    Command, CommandView,
};

verus! {

/// One byte from the thread-local generator of the `rand` crate
/// (`rand::thread_rng`, then `Rng::gen`). Nothing is claimed of the byte.
#[verifier::external_body]
fn random_byte() -> u8 {
    rand::thread_rng().gen::<u8>()
}

/// The MAC address with the fixed first two bytes `52:54` and the four bytes
/// given, each as two lower-case hexadecimal digits.
pub open spec fn mac_text(a: u8, b: u8, c: u8, d: u8) -> Seq<char> {
    "52:54:"@ + hex_fixed(a as nat, 2) + ":"@ + hex_fixed(b as nat, 2) + ":"@ + hex_fixed(
        c as nat,
        2,
    ) + ":"@ + hex_fixed(d as nat, 2)
}

/// The MAC address with the fixed first two bytes `52:54` and the four bytes given.
pub fn mac_address(a: u8, b: u8, c: u8, d: u8) -> (r: String)
    ensures
        r@ == mac_text(a, b, c, d),
{
    let mut v = to_chars("52:54:");
    push_hex(&mut v, a as u64, 2);
    v.push(':');
    push_hex(&mut v, b as u64, 2);
    v.push(':');
    push_hex(&mut v, c as u64, 2);
    v.push(':');
    push_hex(&mut v, d as u64, 2);
    proof {
        reveal_strlit(":");
        assert(":"@ =~= seq![':']);
        assert(v@ =~= mac_text(a, b, c, d));
    }
    from_chars(&v)
}

/// A MAC address is seventeen characters long and begins with `52:54:`.
pub proof fn law_mac_shape(a: u8, b: u8, c: u8, d: u8)
    ensures
        mac_text(a, b, c, d).len() == 17,
        starts_with(mac_text(a, b, c, d), "52:54:"@),
{
    reveal_strlit("52:54:");
    reveal_strlit(":");
    lemma_hex_fixed(a as nat, 2);
    lemma_hex_fixed(b as nat, 2);
    lemma_hex_fixed(c as nat, 2);
    lemma_hex_fixed(d as nat, 2);
    assert(mac_text(a, b, c, d).subrange(0, 6) =~= "52:54:"@);
}

/// A fresh MAC address: `52:54`, then four bytes drawn at random.
pub fn generate_random_mac() -> (r: String)
    ensures
        exists|a: u8, b: u8, c: u8, d: u8| r@ == mac_text(a, b, c, d),
        r@.len() == 17,
        starts_with(r@, "52:54:"@),
{
    let a = random_byte();
    let b = random_byte();
    let c = random_byte();
    let d = random_byte();
    proof {
        law_mac_shape(a, b, c, d);
    }
    mac_address(a, b, c, d)
}

/// A number drawn uniformly from `low` up to, not including, `high`, by the
/// thread-local generator of the `rand` crate (`rand::thread_rng`, then
/// `Rng::gen_range`). The number lies in the range; the range must not be
/// empty.
#[verifier::external_body]
fn random_in(low: u8, high: u8) -> (r: u8)
    requires
        low < high,
    ensures
        low <= r < high,
{
    rand::thread_rng().gen_range(low..high)
}

/// A subnet octet drawn uniformly from 16 up to 215.
pub fn generate_random_octet() -> (r: u8)
    ensures
        16 <= r < 216,
{
    random_in(16, 216)
}

/// The subnet with the third octet `octet`.
pub open spec fn subnet_text(octet: u8) -> Seq<char> {
    "192.168."@ + decimal(octet as nat)
}

/// The third octet that the content of a subnet file records: the content,
/// without white space around it, is `192.168.` and then a number up to 255.
/// Any other content records none.
pub open spec fn subnet_octet(content: Seq<char>) -> Option<u8> {
    let t = trimmed(content);
    if starts_with(t, "192.168."@) {
        match parse_unsigned(t.subrange("192.168."@.len() as int, t.len() as int), 255) {
            Some(n) => Some(n as u8),
            None => None,
        }
    } else {
        None
    }
}

/// The third octet that the content of a subnet file records, if any.
pub fn parse_subnet(content: &str) -> (r: Option<u8>)
    ensures
        r == subnet_octet(content@),
{
    let t = trim(&to_chars(content));
    let prefix = to_chars("192.168.");
    if has_prefix(&t, &prefix) {
        let rest = slice(&t, prefix.len(), t.len());
        match parse_number(&rest, 255) {
            Some(n) => Some(n as u8),
            None => None,
        }
    } else {
        None
    }
}

/// One of the subnet files of `existing` records the octet `octet`.
pub open spec fn octet_used(existing: Seq<String>, octet: u8) -> bool {
    exists|i: int| 0 <= i < existing.len() && subnet_octet(#[trigger] existing[i]@) == Some(octet)
}

/// Whether one of the subnet files of `existing` records the octet `octet`.
pub fn is_octet_used(existing: &Vec<String>, octet: u8) -> (r: bool)
    ensures
        r == octet_used(existing@, octet),
{
    let mut i: usize = 0;
    while i < existing.len()
        invariant
            i <= existing.len(),
            forall|j: int| 0 <= j < i ==> subnet_octet(#[trigger] existing@[j]@) != Some(octet),
        decreases existing.len() - i,
    {
        if parse_subnet(existing[i].as_str()) == Some(octet) {
            return true;
        }
        i += 1;
    }
    false
}

/// The subnet that the drawn octet `octet` gives: the subnet of that octet,
/// unless one of the subnet files of `existing` records the octet already.
pub fn subnet_for_draw(existing: &Vec<String>, octet: u8) -> (r: Option<String>)
    ensures
        match r {
            Some(s) => !octet_used(existing@, octet) && s@ == subnet_text(octet),
            None => octet_used(existing@, octet),
        },
{
    if is_octet_used(existing, octet) {
        None
    } else {
        Some(pair("192.168.", to_decimal(octet as u64).as_str()))
    }
}

/// A subnet that none of the VMs has: `existing` holds the content of each
/// VM's subnet file. Up to 200 octets are drawn uniformly from 16 up to 215;
/// the first that no file records gives the subnet. Where none of the 200
/// octets is taken, the first draw gives it. Where all of them are taken, or
/// no draw finds a free one, the allocation is exhausted.
pub fn generate_unique_subnet(existing: &Vec<String>) -> (r: Result<String>)
    ensures
        match r {
            Ok(s) => exists|octet: u8|
                16 <= octet < 216 && !octet_used(existing@, octet) && s@ == #[trigger] subnet_text(
                    octet,
                ),
            Err(e) => e is AllocationExhausted,
        },
        (forall|octet: u8| 16 <= octet < 216 ==> octet_used(existing@, octet)) ==> r is Err,
        (forall|octet: u8| 16 <= octet < 216 ==> !octet_used(existing@, octet)) ==> r is Ok,
{
    let mut attempts: u32 = 0;
    while attempts < 200
        invariant
            attempts <= 200,
            attempts > 0 ==> exists|octet: u8|
                16 <= octet < 216 && #[trigger] octet_used(existing@, octet),
        decreases 200 - attempts,
    {
        let octet = generate_random_octet();
        match subnet_for_draw(existing, octet) {
            Some(s) => {
                assert(s@ == subnet_text(octet));
                return Ok(s);
            },
            None => {
                assert(octet_used(existing@, octet));
            },
        }
        attempts += 1;
    }
    Err(
        Error::AllocationExhausted(
            String::from_str("Could not generate a unique subnet after multiple attempts"),
        ),
    )
}

/// A subnet that the allocator gives reads back as its own octet, is left
/// as it is when white space around it is removed, and differs from the
/// subnet of any other octet.
pub proof fn law_subnet_text(octet: u8, other: u8)
    ensures
        subnet_octet(subnet_text(octet)) == Some(octet),
        trimmed(subnet_text(octet)) == subnet_text(octet),
        octet != other ==> subnet_text(octet) != subnet_text(other),
{
    reveal_strlit("192.168.");
    let s = subnet_text(octet);
    crate::text::lemma_decimal(octet as nat);
    crate::text::lemma_digit_char((octet as nat % 10) as int);
    assert(is_digit(s.last()));
    crate::text::lemma_trim_nothing(s);
    assert(s.subrange(0, 8) =~= "192.168."@);
    assert(s.subrange(8, s.len() as int) =~= decimal(octet as nat));
    crate::text::lemma_parse_decimal(octet as nat, 255);
    if octet != other {
        let t = subnet_text(other);
        crate::text::lemma_decimal(other as nat);
        if s == t {
            assert(t.subrange(8, t.len() as int) =~= decimal(other as nat));
        }
    }
}

/// A subnet that the allocator may give differs from every subnet that a VM
/// records: no two VMs share an octet.
pub proof fn law_fresh_subnet(existing: Seq<String>, octet: u8, i: int)
    requires
        !octet_used(existing, octet),
        0 <= i < existing.len(),
    ensures
        subnet_octet(existing[i]@) != subnet_octet(subnet_text(octet)),
        existing[i]@ != subnet_text(octet),
{
    law_subnet_text(octet, octet);
}

/// The name of the TAP device that the digest `hash` gives at the attempt
/// `k`: at first `tap-` and the eight hexadecimal digits of the digest's
/// remainder by 0xFFFFFFFF; from the second attempt on `tap-`, the seven
/// digits of its remainder by 0xFFFFFFF, and the last digit of `k`.
pub open spec fn tap_candidate(hash: u64, k: nat) -> Seq<char> {
    if k == 0 {
        "tap-"@ + hex_fixed((hash % 0xFFFFFFFF) as nat, 8)
    } else {
        "tap-"@ + hex_fixed((hash % 0xFFFFFFF) as nat, 7) + hex_fixed(k % 16, 1)
    }
}

/// Every TAP name that is tried has twelve characters, well within the
/// fifteen that the kernel allows: `tap-`, then eight hexadecimal digits.
pub proof fn law_tap_name_shape(hash: u64, k: nat)
    ensures
        tap_candidate(hash, k).len() == 12,
        tap_candidate(hash, k).len() <= 15,
        starts_with(tap_candidate(hash, k), "tap-"@),
        forall|i: int| 4 <= i < 12 ==> is_hex_digit(#[trigger] tap_candidate(hash, k)[i]),
{
    reveal_strlit("tap-");
    let s = tap_candidate(hash, k);
    lemma_hex_fixed((hash % 0xFFFFFFFF) as nat, 8);
    lemma_hex_fixed((hash % 0xFFFFFFF) as nat, 7);
    lemma_hex_fixed(k % 16, 1);
    assert(s.subrange(0, 4) =~= "tap-"@);
    assert forall|i: int| 4 <= i < 12 implies is_hex_digit(#[trigger] s[i]) by {
        if k == 0 {
            assert(s[i] == hex_fixed((hash % 0xFFFFFFFF) as nat, 8)[i - 4]);
        } else if i < 11 {
            assert(s[i] == hex_fixed((hash % 0xFFFFFFF) as nat, 7)[i - 4]);
        } else {
            assert(s[i] == hex_fixed(k % 16, 1)[i - 11]);
        }
    }
}

/// The name of the TAP device that the digest `hash` gives at the attempt `k`.
pub fn tap_name_at(hash: u64, k: u32) -> (r: String)
    ensures
        r@ == tap_candidate(hash, k as nat),
{
    let mut v = to_chars("tap-");
    if k == 0 {
        push_hex(&mut v, hash % 0xFFFFFFFF, 8);
    } else {
        push_hex(&mut v, hash % 0xFFFFFFF, 7);
        push_hex(&mut v, (k % 16) as u64, 1);
    }
    assert(v@ =~= tap_candidate(hash, k as nat));
    from_chars(&v)
}

/// The TAP name that a line of the kernel's interface list shows: from the
/// first `tap-` in the line up to the first colon at or behind it. A line
/// without `tap-`, or without a colon from there on, shows none.
pub open spec fn tap_in_line(line: Seq<char>) -> Option<Seq<char>> {
    if exists|p: int| first_match(line, "tap-"@, p) {
        let p = choose|p: int| first_match(line, "tap-"@, p);
        if exists|q: int| first_match_from(line, ":"@, p, q) {
            let q = choose|q: int| first_match_from(line, ":"@, p, q);
            Some(line.subrange(p, q))
        } else {
            None
        }
    } else {
        None
    }
}

/// The TAP name that a line of the kernel's interface list shows, if any.
pub fn parse_tap_line(line: &Vec<char>) -> (r: Option<Vec<char>>)
    ensures
        match r {
            Some(name) => tap_in_line(line@) == Some(name@),
            None => tap_in_line(line@) is None,
        },
{
    let mark = to_chars("tap-");
    let colon = to_chars(":");
    match find(line, &mark) {
        None => {
            assert forall|p: int| !first_match(line@, "tap-"@, p) by {
                if first_match(line@, "tap-"@, p) {
                    assert(match_at(line@, "tap-"@, p));
                }
            }
            None
        },
        Some(p) => {
            let ghost p0 = choose|p: int| first_match(line@, "tap-"@, p);
            assert(p0 == p);
            match find_from(line, &colon, p) {
                None => {
                    assert forall|q: int| !first_match_from(line@, ":"@, p as int, q) by {
                        if first_match_from(line@, ":"@, p as int, q) {
                            assert(match_at(line@, ":"@, q));
                        }
                    }
                    None
                },
                Some(q) => {
                    let ghost q0 = choose|q: int| first_match_from(line@, ":"@, p as int, q);
                    assert(q0 == q);
                    assert(match_at(line@, ":"@, q as int));
                    Some(slice(line, p, q))
                },
            }
        },
    }
}

/// The TAP names that the lines show, in the order of the lines.
pub open spec fn taps_in(lines: Seq<Seq<char>>) -> Seq<Seq<char>>
    decreases lines.len(),
{
    if lines.len() == 0 {
        Seq::<Seq<char>>::empty()
    } else {
        match tap_in_line(lines.last()) {
            Some(name) => taps_in(lines.drop_last()).push(name),
            None => taps_in(lines.drop_last()),
        }
    }
}

/// The TAP devices that the kernel's interface list (the output of
/// `ip link show`) shows, in its order.
pub fn system_taps(ip_link_output: &str) -> (r: Vec<String>)
    ensures
        strs(r@) == taps_in(lines_of(ip_link_output@)),
{
    let all = lines(&to_chars(ip_link_output));
    let mut r = no_args();
    let mut i: usize = 0;
    assert(views_of(all@).subrange(0, 0) =~= Seq::<Seq<char>>::empty());
    while i < all.len()
        invariant
            i <= all.len(),
            strs(r@) == taps_in(views_of(all@).subrange(0, i as int)),
        decreases all.len() - i,
    {
        let ghost pre = views_of(all@).subrange(0, i as int);
        let ghost cur = views_of(all@).subrange(0, i + 1);
        assert(cur.drop_last() == pre);
        assert(cur.last() == all@[i as int]@);
        match parse_tap_line(&all[i]) {
            Some(name) => {
                push_arg(&mut r, from_chars(&name).as_str());
            },
            None => {},
        }
        i += 1;
    }
    assert(views_of(all@).subrange(0, i as int) == views_of(all@));
    r
}

/// The TAP file of a VM records `name`, white space around it aside.
pub open spec fn tap_recorded(recorded: Seq<Seq<char>>, name: Seq<char>) -> bool {
    exists|i: int| 0 <= i < recorded.len() && trimmed(#[trigger] recorded[i]) == name
}

/// `name` is taken: the kernel shows a device of that name, or the TAP file
/// of a VM records it.
pub open spec fn tap_taken(system: Seq<Seq<char>>, recorded: Seq<Seq<char>>, name: Seq<char>) -> bool {
    system.contains(name) || tap_recorded(recorded, name)
}

/// Whether `name` is among `names`.
pub fn has_name(names: &Vec<String>, name: &str) -> (r: bool)
    ensures
        r == strs(names@).contains(name@),
{
    let mut i: usize = 0;
    let target = to_chars(name);
    while i < names.len()
        invariant
            i <= names.len(),
            target@ == name@,
            forall|j: int| 0 <= j < i ==> strs(names@)[j] != name@,
        decreases names.len() - i,
    {
        let cur = to_chars(names[i].as_str());
        assert(strs(names@)[i as int] == cur@);
        if crate::text::same_chars(&cur, &target) {
            return true;
        }
        i += 1;
    }
    false
}

/// Whether the TAP file of a VM records `name`, white space around it aside.
pub fn is_recorded(recorded: &Vec<String>, name: &str) -> (r: bool)
    ensures
        r == tap_recorded(strs(recorded@), name@),
{
    let mut i: usize = 0;
    let target = to_chars(name);
    while i < recorded.len()
        invariant
            i <= recorded.len(),
            target@ == name@,
            forall|j: int| 0 <= j < i ==> trimmed(#[trigger] strs(recorded@)[j]) != name@,
        decreases recorded.len() - i,
    {
        let cur = trim(&to_chars(recorded[i].as_str()));
        assert(strs(recorded@)[i as int] == recorded@[i as int]@);
        if crate::text::same_chars(&cur, &target) {
            return true;
        }
        i += 1;
    }
    false
}

/// The TAP name for the digest `hash`: the first of the names of the
/// attempts 0, 1, ..., 1000 that is not taken. `system` holds the devices
/// that the kernel shows, `recorded` the content of each VM's TAP file. Where
/// all these names are taken, the allocation is exhausted.
pub fn tap_name_for(hash: u64, system: &Vec<String>, recorded: &Vec<String>) -> (r: Result<String>)
    ensures
        tap_choice(hash, strs(system@), strs(recorded@), r),
{
    let mut k: u32 = 0;
    while k <= 1000
        invariant
            k <= 1001,
            forall|j: nat|
                j < k ==> tap_taken(
                    strs(system@),
                    strs(recorded@),
                    #[trigger] tap_candidate(hash, j),
                ),
        decreases 1001 - k,
    {
        let name = tap_name_at(hash, k);
        if !has_name(system, name.as_str()) && !is_recorded(recorded, name.as_str()) {
            assert(name@ == tap_candidate(hash, k as nat));
            return Ok(name);
        }
        k += 1;
    }
    Err(
        Error::AllocationExhausted(
            String::from_str("Could not generate a unique TAP device name after extensive attempts"),
        ),
    )
}

/// Feeds the text `s` to the hasher (`Hash::hash` of `str`).
#[verifier::external_body]
fn hash_text(hasher: &mut std::collections::hash_map::DefaultHasher, s: &str) {
    std::hash::Hash::hash(s, hasher)
}

/// Feeds the number `n` to the hasher (`Hash::hash` of `u64`).
#[verifier::external_body]
fn hash_number(hasher: &mut std::collections::hash_map::DefaultHasher, n: u64) {
    std::hash::Hash::hash(&n, hasher)
}

/// `r` is what the digest `hash` gives for a TAP name: the first of the
/// names of the attempts 0, 1, ..., 1000 that is not taken, or a failure
/// where all of them are taken.
pub open spec fn tap_choice(
    hash: u64,
    system: Seq<Seq<char>>,
    recorded: Seq<Seq<char>>,
    r: Result<String>,
) -> bool {
    match r {
        Ok(name) => exists|k: nat|
            {
                &&& k <= 1000
                &&& name@ == #[trigger] tap_candidate(hash, k)
                &&& !tap_taken(system, recorded, name@)
                &&& forall|j: nat|
                    j < k ==> tap_taken(system, recorded, #[trigger] tap_candidate(hash, j))
            },
        Err(e) => e is AllocationExhausted && forall|k: nat|
            k <= 1000 ==> tap_taken(system, recorded, #[trigger] tap_candidate(hash, k)),
    }
}

/// A TAP name for the VM `vm_name` that is not taken. The name comes from a
/// digest of the VM's name and the time `now`, in seconds; `ip_link_output`
/// is the kernel's interface list, `recorded` the content of each VM's TAP
/// file.
pub fn generate_unique_tap_name(
    vm_name: &str,
    now: u64,
    ip_link_output: &str,
    recorded: &Vec<String>,
) -> (r: Result<String>)
    ensures
        exists|hash: u64| #[trigger]
            tap_choice(hash, taps_in(lines_of(ip_link_output@)), strs(recorded@), r),
        r matches Ok(name) ==> name@.len() == 12,
{
    let system = system_taps(ip_link_output);
    let mut hasher = std::collections::hash_map::DefaultHasher::new();
    hash_text(&mut hasher, vm_name);
    hash_number(&mut hasher, now);
    let hash = hasher.finish();
    let r = tap_name_for(hash, &system, recorded);
    proof {
        assert(tap_choice(hash, taps_in(lines_of(ip_link_output@)), strs(recorded@), r));
        if r is Ok {
            let name = r->Ok_0;
            let k = choose|k: nat| k <= 1000 && name@ == #[trigger] tap_candidate(hash, k);
            law_tap_name_shape(hash, k);
        }
    }
    r
}

/// The command that removes the TAP device `tap`.
pub open spec fn tap_delete(tap: Seq<char>) -> CommandView {
    cmd("sudo"@, args().push("ip"@).push("link"@).push("del"@).push(tap))
}

/// The command that removes the TAP device `tap`.
pub fn tap_delete_command(tap: &str) -> (c: Command)
    ensures
        c@ == tap_delete(tap@),
{
    let mut a = no_args();
    push_arg(&mut a, "ip");
    push_arg(&mut a, "link");
    push_arg(&mut a, "del");
    push_arg(&mut a, tap);
    command("sudo", a)
}

/// The TAP devices that the kernel shows and that no VM's TAP file records,
/// each once: `ip_link_output` is the kernel's interface list, `recorded` the
/// content of each VM's TAP file. These are the devices to remove.
pub fn cleanup_orphaned_tap_devices(ip_link_output: &str, recorded: &Vec<String>) -> (r: Vec<
    String,
>)
    ensures
        strs(r@).no_duplicates(),
        forall|name: Seq<char>| #[trigger]
            strs(r@).contains(name) <==> taps_in(lines_of(ip_link_output@)).contains(name)
                && !tap_recorded(strs(recorded@), name),
{
    let system = system_taps(ip_link_output);
    let mut r = no_args();
    let mut i: usize = 0;
    while i < system.len()
        invariant
            i <= system.len(),
            strs(r@).no_duplicates(),
            forall|name: Seq<char>| #[trigger]
                strs(r@).contains(name) <==> strs(system@).subrange(0, i as int).contains(name)
                    && !tap_recorded(strs(recorded@), name),
        decreases system.len() - i,
    {
        let name = &system[i];
        let ghost pre = strs(system@).subrange(0, i as int);
        let ghost cur = strs(system@).subrange(0, i + 1);
        let ghost before = strs(r@);
        assert(cur =~= pre.push(name@));
        let known = is_recorded(recorded, name.as_str());
        let listed = has_name(&r, name.as_str());
        let fresh = !known && !listed;
        if fresh {
            push_arg(&mut r, name.as_str());
        }
        assert forall|x: Seq<char>| #[trigger]
            strs(r@).contains(x) <==> cur.contains(x) && !tap_recorded(strs(recorded@), x) by {
            assert(before.contains(x) <==> pre.contains(x) && !tap_recorded(strs(recorded@), x));
            crate::text::lemma_push_contains(pre, name@, x);
            crate::text::lemma_push_contains(before, name@, x);
        }
        i += 1;
    }
    assert(strs(system@).subrange(0, i as int) == strs(system@));
    r
}

/// What was found of a VM's host-side network before it is set up.
#[derive(Debug, Clone, Copy)]
pub struct NetworkState {
    /// The TAP device is there.
    pub tap_exists: bool,
    /// The masquerade rule for the subnet is installed.
    pub masquerade_installed: bool,
    /// The forward rule for the TAP device is installed.
    pub forward_installed: bool,
}

/// The command that tells whether the TAP device `tap` is there.
pub open spec fn tap_probe(tap: Seq<char>) -> CommandView {
    cmd("sudo"@, args().push("ip"@).push("link"@).push("show"@).push(tap))
}

/// The command that tells whether the masquerade rule for `subnet` is installed.
pub open spec fn masquerade_probe(subnet: Seq<char>) -> CommandView {
    cmd(
        "bash"@,
        args().push("-c"@).push(
            "sudo iptables -t nat -C POSTROUTING -s "@ + subnet + ".0/24 -j MASQUERADE"@,
        ),
    )
}

/// The command that tells whether the forward rule for `tap` is installed.
pub open spec fn forward_probe(tap: Seq<char>) -> CommandView {
    cmd("bash"@, args().push("-c"@).push("sudo iptables -C FORWARD -i "@ + tap + " -j ACCEPT"@))
}

/// The commands that find out the state of a VM's host-side network: whether
/// the TAP device is there, whether the masquerade rule is installed, and
/// whether the forward rule is. Each answers yes by succeeding.
pub fn setup_probes(tap_name: &str, subnet: &str) -> (r: Vec<Command>)
    ensures
        commands(r@) == sequence().push(tap_probe(tap_name@)).push(masquerade_probe(subnet@)).push(
            forward_probe(tap_name@),
        ),
{
    let mut r = no_commands();
    let mut a = no_args();
    push_arg(&mut a, "ip");
    push_arg(&mut a, "link");
    push_arg(&mut a, "show");
    push_arg(&mut a, tap_name);
    push_command(&mut r, command("sudo", a));
    let mut b = no_args();
    push_arg(&mut b, "-c");
    push_arg(
        &mut b,
        crate::text::wrap(
            "sudo iptables -t nat -C POSTROUTING -s ",
            subnet,
            ".0/24 -j MASQUERADE",
        ).as_str(),
    );
    push_command(&mut r, command("bash", b));
    let mut c = no_args();
    push_arg(&mut c, "-c");
    push_arg(
        &mut c,
        crate::text::wrap("sudo iptables -C FORWARD -i ", tap_name, " -j ACCEPT").as_str(),
    );
    push_command(&mut r, command("bash", c));
    r
}

/// The commands that create the TAP device `tap`, give it the host's
/// address in `subnet`, and bring it up.
pub open spec fn tap_create(tap: Seq<char>, subnet: Seq<char>) -> Seq<CommandView> {
    sequence().push(
        cmd("sudo"@, args().push("ip"@).push("tuntap"@).push("add"@).push(tap).push("mode"@).push("tap"@)),
    ).push(
        cmd(
            "sudo"@,
            args().push("ip"@).push("addr"@).push("add"@).push(subnet + ".1/24"@).push("dev"@).push(
                tap,
            ),
        ),
    ).push(cmd("sudo"@, args().push("ip"@).push("link"@).push("set"@).push(tap).push("up"@)))
}

/// The command that lets the kernel forward packets.
pub open spec fn enable_forwarding() -> CommandView {
    cmd("sudo"@, args().push("sysctl"@).push("-q"@).push("net.ipv4.ip_forward=1"@))
}

/// The command that adds (`-A`) or removes (`-D`) the masquerade rule for `subnet`.
pub open spec fn masquerade_rule(action: Seq<char>, subnet: Seq<char>) -> CommandView {
    cmd(
        "sudo"@,
        args().push("iptables"@).push("-t"@).push("nat"@).push(action).push("POSTROUTING"@).push(
            "-s"@,
        ).push(subnet + ".0/24"@).push("-j"@).push("MASQUERADE"@),
    )
}

/// The commands that let traffic of `tap` leave the host and its answers return.
pub open spec fn forward_rules(tap: Seq<char>) -> Seq<CommandView> {
    sequence().push(
        cmd(
            "sudo"@,
            args().push("iptables"@).push("-A"@).push("FORWARD"@).push("-i"@).push(tap).push(
                "-j"@,
            ).push("ACCEPT"@),
        ),
    ).push(
        cmd(
            "sudo"@,
            args().push("iptables"@).push("-A"@).push("FORWARD"@).push("-o"@).push(tap).push(
                "-m"@,
            ).push("conntrack"@).push("--ctstate"@).push("RELATED,ESTABLISHED"@).push("-j"@).push(
                "ACCEPT"@,
            ),
        ),
    )
}

/// The commands that set up the host side of a VM's network, given what is
/// there already: the TAP device is created unless it exists; forwarding is
/// always switched on; the masquerade rule and the forward rules are added
/// unless they are installed.
pub open spec fn setup_commands(tap: Seq<char>, subnet: Seq<char>, state: NetworkState) -> Seq<
    CommandView,
> {
    (if state.tap_exists {
        sequence()
    } else {
        tap_create(tap, subnet)
    }).push(enable_forwarding()) + (if state.masquerade_installed {
        sequence()
    } else {
        sequence().push(masquerade_rule("-A"@, subnet))
    }) + (if state.forward_installed {
        sequence()
    } else {
        forward_rules(tap)
    })
}

/// The command that adds (`-A`) or removes (`-D`) the masquerade rule for `subnet`.
pub fn masquerade_command(action: &str, subnet: &str) -> (c: Command)
    ensures
        c@ == masquerade_rule(action@, subnet@),
{
    let mut a = no_args();
    push_arg(&mut a, "iptables");
    push_arg(&mut a, "-t");
    push_arg(&mut a, "nat");
    push_arg(&mut a, action);
    push_arg(&mut a, "POSTROUTING");
    push_arg(&mut a, "-s");
    push_arg(&mut a, pair(subnet, ".0/24").as_str());
    push_arg(&mut a, "-j");
    push_arg(&mut a, "MASQUERADE");
    command("sudo", a)
}

/// The commands that set up the host side of the network of a VM with the
/// TAP device `tap_name` and the subnet `subnet`, given what `state` says is
/// there already. They are run in order, and each must succeed.
pub fn setup_networking(tap_name: &str, subnet: &str, state: &NetworkState) -> (r: Vec<Command>)
    ensures
        commands(r@) == setup_commands(tap_name@, subnet@, *state),
{
    let mut r = no_commands();
    if !state.tap_exists {
        let mut a = no_args();
        push_arg(&mut a, "ip");
        push_arg(&mut a, "tuntap");
        push_arg(&mut a, "add");
        push_arg(&mut a, tap_name);
        push_arg(&mut a, "mode");
        push_arg(&mut a, "tap");
        push_command(&mut r, command("sudo", a));
        let mut b = no_args();
        push_arg(&mut b, "ip");
        push_arg(&mut b, "addr");
        push_arg(&mut b, "add");
        push_arg(&mut b, pair(subnet, ".1/24").as_str());
        push_arg(&mut b, "dev");
        push_arg(&mut b, tap_name);
        push_command(&mut r, command("sudo", b));
        let mut c = no_args();
        push_arg(&mut c, "ip");
        push_arg(&mut c, "link");
        push_arg(&mut c, "set");
        push_arg(&mut c, tap_name);
        push_arg(&mut c, "up");
        push_command(&mut r, command("sudo", c));
    }
    let mut d = no_args();
    push_arg(&mut d, "sysctl");
    push_arg(&mut d, "-q");
    push_arg(&mut d, "net.ipv4.ip_forward=1");
    push_command(&mut r, command("sudo", d));
    if !state.masquerade_installed {
        push_command(&mut r, masquerade_command("-A", subnet));
    }
    if !state.forward_installed {
        let mut e = no_args();
        push_arg(&mut e, "iptables");
        push_arg(&mut e, "-A");
        push_arg(&mut e, "FORWARD");
        push_arg(&mut e, "-i");
        push_arg(&mut e, tap_name);
        push_arg(&mut e, "-j");
        push_arg(&mut e, "ACCEPT");
        push_command(&mut r, command("sudo", e));
        let mut f = no_args();
        push_arg(&mut f, "iptables");
        push_arg(&mut f, "-A");
        push_arg(&mut f, "FORWARD");
        push_arg(&mut f, "-o");
        push_arg(&mut f, tap_name);
        push_arg(&mut f, "-m");
        push_arg(&mut f, "conntrack");
        push_arg(&mut f, "--ctstate");
        push_arg(&mut f, "RELATED,ESTABLISHED");
        push_arg(&mut f, "-j");
        push_arg(&mut f, "ACCEPT");
        push_command(&mut r, command("sudo", f));
    }
    assert(commands(r@) =~= setup_commands(tap_name@, subnet@, *state));
    r
}

/// The command that adds (`-A`) or removes (`-D`) the rule that sends what
/// arrives at the host's TCP port `host_port` to `guest_port` of the guest in `subnet`.
pub open spec fn dnat_rule(action: Seq<char>, subnet: Seq<char>, host_port: u16, guest_port: u16) -> CommandView {
    cmd(
        "sudo"@,
        args().push("iptables"@).push("-t"@).push("nat"@).push(action).push("PREROUTING"@).push(
            "-p"@,
        ).push("tcp"@).push("--dport"@).push(decimal(host_port as nat)).push("-j"@).push(
            "DNAT"@,
        ).push("--to"@).push(subnet + ".2:"@ + decimal(guest_port as nat)),
    )
}

/// The command that adds (`-A`) or removes (`-D`) a port forward.
pub fn dnat_command(action: &str, subnet: &str, host_port: u16, guest_port: u16) -> (c: Command)
    ensures
        c@ == dnat_rule(action@, subnet@, host_port, guest_port),
{
    let mut a = no_args();
    push_arg(&mut a, "iptables");
    push_arg(&mut a, "-t");
    push_arg(&mut a, "nat");
    push_arg(&mut a, action);
    push_arg(&mut a, "PREROUTING");
    push_arg(&mut a, "-p");
    push_arg(&mut a, "tcp");
    push_arg(&mut a, "--dport");
    push_arg(&mut a, to_decimal(host_port as u64).as_str());
    push_arg(&mut a, "-j");
    push_arg(&mut a, "DNAT");
    push_arg(&mut a, "--to");
    push_arg(
        &mut a,
        crate::text::wrap(subnet, ".2:", to_decimal(guest_port as u64).as_str()).as_str(),
    );
    command("sudo", a)
}

/// The command that lists the rules that forward ports.
pub fn port_rules_probe() -> (c: Command)
    ensures
        c@ == cmd(
            "sudo"@,
            args().push("iptables"@).push("-t"@).push("nat"@).push("-S"@).push("PREROUTING"@),
        ),
{
    let mut a = no_args();
    push_arg(&mut a, "iptables");
    push_arg(&mut a, "-t");
    push_arg(&mut a, "nat");
    push_arg(&mut a, "-S");
    push_arg(&mut a, "PREROUTING");
    command("sudo", a)
}

/// Those of `parts` that are not empty, in their order.
pub open spec fn nonempty(parts: Seq<Seq<char>>) -> Seq<Seq<char>>
    decreases parts.len(),
{
    if parts.len() == 0 {
        args()
    } else if parts.last().len() == 0 {
        nonempty(parts.drop_last())
    } else {
        nonempty(parts.drop_last()).push(parts.last())
    }
}

/// The words of a line: what stands between its spaces.
pub open spec fn words_of(line: Seq<char>) -> Seq<Seq<char>> {
    nonempty(crate::text::split_on(line, ' '))
}

/// Somewhere in `words` the word `first` stands right before the word `second`.
pub open spec fn follows(words: Seq<Seq<char>>, first: Seq<char>, second: Seq<char>) -> bool {
    exists|i: int| 0 <= i < words.len() - 1 && #[trigger] words[i] == first && words[i + 1] == second
}

/// The rule written in `words` forwards the host's TCP port `port`: it is
/// appended to PREROUTING, matches TCP and that destination port, and jumps
/// to DNAT, whatever its target.
pub open spec fn forwards_port(words: Seq<Seq<char>>, port: u16) -> bool {
    &&& words.len() >= 2
    &&& words[0] == "-A"@
    &&& words[1] == "PREROUTING"@
    &&& follows(words, "-p"@, "tcp"@)
    &&& follows(words, "--dport"@, decimal(port as nat))
    &&& follows(words, "-j"@, "DNAT"@)
}

/// The command that removes the rule written in `words`: the rule as it is
/// listed, with `-D` in the place of `-A`.
pub open spec fn rule_removal(words: Seq<Seq<char>>) -> CommandView {
    cmd(
        "sudo"@,
        args().push("iptables"@).push("-t"@).push("nat"@).push("-D"@) + words.subrange(
            1,
            words.len() as int,
        ),
    )
}

/// The commands that remove every rule among `lines` that forwards the
/// host's TCP port `port`, in the order of the lines.
pub open spec fn removals(lines: Seq<Seq<char>>, port: u16) -> Seq<CommandView>
    decreases lines.len(),
{
    if lines.len() == 0 {
        sequence()
    } else if forwards_port(words_of(lines.last()), port) {
        removals(lines.drop_last(), port).push(rule_removal(words_of(lines.last())))
    } else {
        removals(lines.drop_last(), port)
    }
}

/// A forward of the host's TCP port `port` to `target`, in the words in
/// which the kernel's rule listing writes it.
pub open spec fn listed_forward(port: u16, target: Seq<char>) -> Seq<Seq<char>> {
    args().push("-A"@).push("PREROUTING"@).push("-p"@).push("tcp"@).push("-m"@).push("tcp"@).push(
        "--dport"@,
    ).push(decimal(port as nat)).push("-j"@).push("DNAT"@).push("--to-destination"@).push(target)
}

/// A forward that is listed is removed before the port is forwarded anew: a
/// listed forward of a port counts as one, whatever its target, and its
/// removal is the listed rule with `-D` in the place of `-A`. So a second
/// forward of the same port leaves no rule of the first behind.
pub proof fn law_listed_forward_is_removed(port: u16, target: Seq<char>)
    ensures
        forwards_port(listed_forward(port, target), port),
        rule_removal(listed_forward(port, target)) == cmd(
            "sudo"@,
            args().push("iptables"@).push("-t"@).push("nat"@).push("-D"@).push("PREROUTING"@).push(
                "-p"@,
            ).push("tcp"@).push("-m"@).push("tcp"@).push("--dport"@).push(
                decimal(port as nat),
            ).push("-j"@).push("DNAT"@).push("--to-destination"@).push(target),
        ),
{
    let w = listed_forward(port, target);
    assert(w.len() == 12);
    assert(w[2] == "-p"@ && w[3] == "tcp"@);
    assert(w[6] == "--dport"@ && w[7] == decimal(port as nat));
    assert(w[8] == "-j"@ && w[9] == "DNAT"@);
    assert(rule_removal(w).args =~= args().push("iptables"@).push("-t"@).push("nat"@).push(
        "-D"@,
    ).push("PREROUTING"@).push("-p"@).push("tcp"@).push("-m"@).push("tcp"@).push("--dport"@).push(
        decimal(port as nat),
    ).push("-j"@).push("DNAT"@).push("--to-destination"@).push(target));
}

/// The words of a line.
pub fn words(line: &Vec<char>) -> (r: Vec<String>)
    ensures
        strs(r@) == words_of(line@),
{
    let parts = crate::text::split(line, ' ');
    let mut r = no_args();
    let mut i: usize = 0;
    assert(views_of(parts@).subrange(0, 0) =~= Seq::<Seq<char>>::empty());
    while i < parts.len()
        invariant
            i <= parts.len(),
            strs(r@) == nonempty(views_of(parts@).subrange(0, i as int)),
        decreases parts.len() - i,
    {
        let ghost cur = views_of(parts@).subrange(0, i + 1);
        assert(cur.drop_last() == views_of(parts@).subrange(0, i as int));
        assert(cur.last() == parts@[i as int]@);
        if parts[i].len() > 0 {
            push_arg(&mut r, from_chars(&parts[i]).as_str());
        }
        i += 1;
    }
    assert(views_of(parts@).subrange(0, i as int) == views_of(parts@));
    r
}

/// Whether the word `first` stands right before the word `second` somewhere.
pub fn has_pair(words: &Vec<String>, first: &str, second: &str) -> (r: bool)
    ensures
        r == follows(strs(words@), first@, second@),
{
    if words.len() < 2 {
        return false;
    }
    let mut i: usize = 0;
    while i < words.len() - 1
        invariant
            i <= words.len() - 1,
            words.len() >= 2,
            forall|j: int|
                0 <= j < i ==> !(#[trigger] strs(words@)[j] == first@ && strs(words@)[j + 1]
                    == second@),
        decreases words.len() - i,
    {
        assert(strs(words@)[i as int] == words@[i as int]@);
        assert(strs(words@)[i + 1] == words@[i + 1]@);
        if crate::text::same_text(words[i].as_str(), first) && crate::text::same_text(
            words[i + 1].as_str(),
            second,
        ) {
            return true;
        }
        i += 1;
    }
    false
}

/// Whether the rule written in `words` forwards the host's TCP port `port`.
pub fn is_forward_of(words: &Vec<String>, port: u16) -> (r: bool)
    ensures
        r == forwards_port(strs(words@), port),
{
    if words.len() < 2 {
        return false;
    }
    assert(strs(words@)[0] == words@[0]@);
    assert(strs(words@)[1] == words@[1]@);
    crate::text::same_text(words[0].as_str(), "-A") && crate::text::same_text(
        words[1].as_str(),
        "PREROUTING",
    ) && has_pair(words, "-p", "tcp") && has_pair(
        words,
        "--dport",
        to_decimal(port as u64).as_str(),
    ) && has_pair(words, "-j", "DNAT")
}

/// The command that removes the rule written in `words`.
fn removal_command(words: &Vec<String>) -> (c: Command)
    requires
        words.len() >= 1,
    ensures
        c@ == rule_removal(strs(words@)),
{
    let mut a = no_args();
    push_arg(&mut a, "iptables");
    push_arg(&mut a, "-t");
    push_arg(&mut a, "nat");
    push_arg(&mut a, "-D");
    let ghost head = strs(a@);
    let mut i: usize = 1;
    assert(strs(a@) =~= head + strs(words@).subrange(1, 1));
    while i < words.len()
        invariant
            1 <= i <= words.len(),
            strs(a@) == head + strs(words@).subrange(1, i as int),
        decreases words.len() - i,
    {
        push_arg(&mut a, words[i].as_str());
        i += 1;
        assert(strs(a@) =~= head + strs(words@).subrange(1, i as int));
    }
    command("sudo", a)
}

/// The commands that remove every rule of the listing `rules` that forwards
/// the host's TCP port `port`.
pub fn port_removals(rules: &str, port: u16) -> (r: Vec<Command>)
    ensures
        commands(r@) == removals(lines_of(rules@), port),
{
    let all = lines(&to_chars(rules));
    let mut r = no_commands();
    let mut i: usize = 0;
    assert(views_of(all@).subrange(0, 0) =~= Seq::<Seq<char>>::empty());
    while i < all.len()
        invariant
            i <= all.len(),
            commands(r@) == removals(views_of(all@).subrange(0, i as int), port),
        decreases all.len() - i,
    {
        let ghost cur = views_of(all@).subrange(0, i + 1);
        assert(cur.drop_last() == views_of(all@).subrange(0, i as int));
        assert(cur.last() == all@[i as int]@);
        let w = words(&all[i]);
        if is_forward_of(&w, port) {
            push_command(&mut r, removal_command(&w));
        }
        i += 1;
    }
    assert(views_of(all@).subrange(0, i as int) == views_of(all@));
    r
}

/// What forwarding a port takes.
#[derive(Debug, Clone)]
pub struct PortForward {
    /// Remove the forwards of the same host port that are there. They are
    /// run in order, and a failure of one is passed over.
    pub remove: Vec<Command>,
    /// Installs the forward; it must succeed.
    pub add: Command,
    /// What the VM's ports file then records.
    pub ports: String,
}

/// The forwards that go before a new one is installed for `host_port`:
/// every forward of that port that the listing `rules` shows, whatever its
/// target; or, where no listing could be had, the forward to the same target.
pub open spec fn forward_removals(
    rules: Option<&str>,
    subnet: Seq<char>,
    host_port: u16,
    guest_port: u16,
) -> Seq<CommandView> {
    match rules {
        Some(listing) => removals(lines_of(listing@), host_port),
        None => sequence().push(dnat_rule("-D"@, subnet, host_port, guest_port)),
    }
}

/// What forwarding the host's TCP port `host_port` to `guest_port` of the VM
/// `name` takes. `vm_exists` says whether the VM's directory is there,
/// `subnet` is the content of its subnet file, if it has one, and `rules` is
/// what `port_rules_probe` listed, if it listed anything. Without the
/// directory the VM is not found; without the subnet file its network
/// configuration is missing. Otherwise every forward of the host port that
/// is there is removed first, and then the one forward is installed.
pub fn port_forward(
    name: &str,
    vm_exists: bool,
    subnet: Option<&str>,
    host_port: u16,
    guest_port: u16,
    rules: Option<&str>,
) -> (r: Result<PortForward>)
    ensures
        match r {
            Ok(plan) => vm_exists && (subnet matches Some(s) && {
                &&& commands(plan.remove@) == forward_removals(
                    rules,
                    trimmed(s@),
                    host_port,
                    guest_port,
                )
                &&& plan.add@ == dnat_rule("-A"@, trimmed(s@), host_port, guest_port)
                &&& plan.ports@ == decimal(host_port as nat) + "->"@ + decimal(guest_port as nat)
            }),
            Err(Error::VmNotFound(n)) => !vm_exists && n@ == name@,
            Err(Error::NetworkConfigMissing(n)) => vm_exists && subnet is None && n@ == name@,
            Err(_) => false,
        },
{
    if !vm_exists {
        return Err(Error::VmNotFound(String::from_str(name)));
    }
    let content = match subnet {
        Some(s) => s,
        None => {
            return Err(Error::NetworkConfigMissing(String::from_str(name)));
        },
    };
    let net = from_chars(&trim(&to_chars(content)));
    let remove = match rules {
        Some(listing) => port_removals(listing, host_port),
        None => {
            let mut v = no_commands();
            push_command(&mut v, dnat_command("-D", net.as_str(), host_port, guest_port));
            v
        },
    };
    let add = dnat_command("-A", net.as_str(), host_port, guest_port);
    let ports = crate::text::wrap(
        to_decimal(host_port as u64).as_str(),
        "->",
        to_decimal(guest_port as u64).as_str(),
    );
    Ok(PortForward { remove, add, ports })
}

/// Another VM records the subnet `subnet`, white space aside.
pub open spec fn subnet_shared(others: Seq<String>, subnet: Seq<char>) -> bool {
    exists|i: int| 0 <= i < others.len() && trimmed(#[trigger] others[i]@) == trimmed(subnet)
}

/// The commands that take down the host side of a VM's network: the TAP
/// device that the VM records is removed; the masquerade rule of its subnet
/// is removed unless another VM records the same subnet.
pub open spec fn cleanup_commands(
    tapdev: Option<Seq<char>>,
    subnet: Option<Seq<char>>,
    others: Seq<String>,
) -> Seq<CommandView> {
    (match tapdev {
        Some(t) => sequence().push(tap_delete(trimmed(t))),
        None => sequence(),
    }) + (match subnet {
        Some(s) => if subnet_shared(others, s) {
            sequence()
        } else {
            sequence().push(masquerade_rule("-D"@, trimmed(s)))
        },
        None => sequence(),
    })
}

/// The commands that take down the host side of a VM's network. `tapdev` and
/// `subnet` are the content of the VM's TAP file and subnet file, where it
/// has them; `others` holds the subnet file of every other VM. The commands
/// are run in order, and a failure of one is passed over.
pub fn cleanup_networking(tapdev: Option<&str>, subnet: Option<&str>, others: &Vec<String>) -> (r:
    Vec<Command>)
    ensures
        commands(r@) == cleanup_commands(
            opt_text(tapdev),
            opt_text(subnet),
            others@,
        ),
{
    let mut r = no_commands();
    match tapdev {
        Some(t) => {
            let tap = from_chars(&trim(&to_chars(t)));
            push_command(&mut r, tap_delete_command(tap.as_str()));
        },
        None => {},
    }
    match subnet {
        Some(s) => {
            let net = trim(&to_chars(s));
            let mut found = false;
            let mut i: usize = 0;
            while i < others.len()
                invariant
                    i <= others.len(),
                    net@ == trimmed(s@),
                    found <==> exists|j: int|
                        0 <= j < i && trimmed(#[trigger] others@[j]@) == trimmed(s@),
                decreases others.len() - i,
            {
                let other = trim(&to_chars(others[i].as_str()));
                if crate::text::same_chars(&other, &net) {
                    found = true;
                }
                i += 1;
            }
            if !found {
                push_command(&mut r, masquerade_command("-D", from_chars(&net).as_str()));
            }
        },
        None => {},
    }
    assert(commands(r@) =~= cleanup_commands(
        opt_text(tapdev),
        opt_text(subnet),
        others@,
    ));
    r
}

} // verus!
