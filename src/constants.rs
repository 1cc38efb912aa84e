//! The table of named constants that programs can refer to.

use vstd::prelude::*;

use crate::parse::is_constant_name_spec;
use crate::text::{is_digit_char, is_upper_char};

verus! {

broadcast use vstd::std_specs::vec::group_vec_axioms;

/// A constant in a table, which is one or two bytes wide.
#[derive(PartialEq, Eq, Debug, Clone, Copy, Structural)]
pub enum Constant {
    /// A constant that is one byte wide.
    Eight(u8),
    /// A constant that is two bytes wide.
    Sixteen(u16),
}

/// The value that the first entry with the given name holds, if any.
pub open spec fn lookup_in<V>(entries: Seq<(Seq<char>, V)>, name: Seq<char>) -> Option<V>
    decreases entries.len(),
{
    if entries.len() == 0 {
        None
    } else if entries[0].0 == name {
        Some(entries[0].1)
    } else {
        lookup_in(entries.drop_first(), name)
    }
}

/// Whether no two entries share a name.
pub open spec fn names_unique<V>(entries: Seq<(Seq<char>, V)>) -> bool {
    forall|i: int, j: int| 0 <= i < j < entries.len() ==> entries[i].0 != entries[j].0
}

/// The value at the index of the entry with the given name.
proof fn lemma_lookup_at<V>(entries: Seq<(Seq<char>, V)>, k: int)
    requires
        0 <= k < entries.len(),
        forall|j: int| 0 <= j < k ==> #[trigger] entries[j].0 != entries[k].0,
    ensures
        lookup_in(entries, entries[k].0) == Some(entries[k].1),
    decreases entries.len(),
{
    if k > 0 {
        let rest = entries.drop_first();
        assert(rest[k - 1] == entries[k]);
        assert forall|j: int| 0 <= j < k - 1 implies #[trigger] rest[j].0 != rest[k - 1].0 by {
            assert(rest[j] == entries[j + 1]);
        }
        lemma_lookup_at(rest, k - 1);
    }
}

/// No entry holds a name that is not looked up.
proof fn lemma_lookup_none<V>(entries: Seq<(Seq<char>, V)>, name: Seq<char>)
    requires
        forall|i: int| 0 <= i < entries.len() ==> entries[i].0 != name,
    ensures
        lookup_in(entries, name) is None,
    decreases entries.len(),
{
    if entries.len() > 0 {
        let rest = entries.drop_first();
        assert forall|i: int| 0 <= i < rest.len() implies rest[i].0 != name by {
            assert(rest[i] == entries[i + 1]);
        }
        lemma_lookup_none(rest, name);
    }
}

/// The names and values of a vector of entries.
pub open spec fn entries_view<V>(entries: Seq<(String, V)>) -> Seq<(Seq<char>, V)> {
    entries.map_values(|e: (String, V)| (e.0@, e.1))
}

/// A table that maps names to values, with no two entries sharing a name,
/// and its entries kept in the order in which they were first inserted.
pub struct NameTable<V> {
    entries: Vec<(String, V)>,
}

/// A constants table maps the names of constants to their values.
pub type Table = NameTable<Constant>;

/// The error returned when looking up a constant that is not in the table.
#[derive(PartialEq, Eq, Debug, Clone)]
pub struct UnknownConstant {
    pub name: String,
}

impl<V> View for NameTable<V> {
    type V = Seq<(Seq<char>, V)>;

    closed spec fn view(&self) -> Seq<(Seq<char>, V)> {
        entries_view(self.entries@)
    }
}

impl<V: Copy> NameTable<V> {
    /// The table's well-formedness: no two entries share a name.
    pub open spec fn wf(&self) -> bool {
        names_unique(self@)
    }

    /// The value with the given name in this table.
    pub open spec fn get(&self, name: Seq<char>) -> Option<V> {
        lookup_in(self@, name)
    }

    /// Creates a new empty table.
    pub fn empty() -> (r: NameTable<V>)
        ensures
            r.wf(),
            r@.len() == 0,
    {
        let r = NameTable { entries: Vec::new() };
        assert(r@ =~= Seq::<(Seq<char>, V)>::empty());
        r
    }

    /// The value with the given name, if there is one.
    pub fn find(&self, name: &str) -> (r: Option<V>)
        ensures
            r == self.get(name@),
    {
        let wanted = name.to_owned();
        let mut i: usize = 0;
        while i < self.entries.len()
            invariant
                wanted@ == name@,
                0 <= i <= self.entries@.len(),
                forall|j: int| 0 <= j < i ==> self@[j].0 != name@,
            decreases self.entries@.len() - i,
        {
            assert(self@[i as int] == (self.entries@[i as int].0@, self.entries@[i as int].1));
            if self.entries[i].0 == wanted {
                proof {
                    lemma_lookup_at(self@, i as int);
                }
                return Some(self.entries[i].1);
            }
            i = i + 1;
        }
        proof {
            lemma_lookup_none(self@, name@);
        }
        None
    }

    /// Every entry's name and value, in the table's order.
    pub fn all(&self) -> (r: Vec<(String, V)>)
        ensures
            entries_view(r@) == self@,
    {
        let mut out: Vec<(String, V)> = Vec::new();
        let mut i: usize = 0;
        while i < self.entries.len()
            invariant
                0 <= i <= self.entries@.len(),
                entries_view(out@) == self@.subrange(0, i as int),
            decreases self.entries@.len() - i,
        {
            let name = self.entries[i].0.clone();
            let ghost before = out@;
            out.push((name, self.entries[i].1));
            assert(self@[i as int] == (self.entries@[i as int].0@, self.entries@[i as int].1));
            assert(entries_view(out@) =~= entries_view(before).push(self@[i as int]));
            i = i + 1;
            assert(entries_view(out@) =~= self@.subrange(0, i as int));
        }
        assert(self@.subrange(0, i as int) =~= self@);
        out
    }

    /// Sets the entry with the given name to the given value: in place
    /// where the name is present, at the end where it is not.
    pub fn insert(&mut self, name: String, value: V)
        requires
            old(self).wf(),
        ensures
            final(self).wf(),
            final(self).get(name@) == Some(value),
            forall|n: Seq<char>| n != name@ ==> final(self).get(n) == old(self).get(n),
    {
        let ghost old_view = self@;
        let mut i: usize = 0;
        while i < self.entries.len()
            invariant
                self.wf(),
                self@ == old_view,
                old_view == old(self)@,
                0 <= i <= self.entries@.len(),
                forall|j: int| 0 <= j < i ==> self@[j].0 != name@,
            decreases self.entries@.len() - i,
        {
            assert(self@[i as int] == (self.entries@[i as int].0@, self.entries@[i as int].1));
            if self.entries[i].0 == name {
                self.entries.set(i, (name, value));
                proof {
                    assert(self@ =~= old_view.update(i as int, (name@, value)));
                    assert(names_unique(self@));
                    lemma_lookup_at(self@, i as int);
                    assert forall|n: Seq<char>| n != name@ implies self.get(n) == lookup_in(old_view, n) by {
                        lemma_lookup_update(old_view, i as int, (name@, value), n);
                    }
                }
                return;
            }
            i = i + 1;
        }
        self.entries.push((name, value));
        proof {
            assert(self@ =~= old_view.push((name@, value)));
            assert(names_unique(self@));
            lemma_lookup_at(self@, old_view.len() as int);
            assert forall|n: Seq<char>| n != name@ implies self.get(n) == lookup_in(old_view, n) by {
                lemma_lookup_push(old_view, (name@, value), n);
            }
        }
    }
}

/// The constants from BGP_KEEPALIVE to DNS_EUI48 of the built-in set, over the values
/// that `rest` gives for every other name.
pub open spec fn builtin_bgp_dns(name: Seq<char>, rest: Option<Constant>) -> Option<Constant> {
    if name == "DNS_EUI48"@ {
        Some(Constant::Sixteen(108))
    } else if name == "DNS_CNAME"@ {
        Some(Constant::Sixteen(5))
    } else if name == "DNS_CH"@ {
        Some(Constant::Sixteen(3))
    } else if name == "DNS_CAA"@ {
        Some(Constant::Sixteen(257))
    } else if name == "DNS_ANY"@ {
        Some(Constant::Sixteen(255))
    } else if name == "DNS_AAAA"@ {
        Some(Constant::Sixteen(28))
    } else if name == "DNS_A"@ {
        Some(Constant::Sixteen(1))
    } else if name == "BGP_UPDATE"@ {
        Some(Constant::Eight(2))
    } else if name == "BGP_ROUTE_REFRESH"@ {
        Some(Constant::Eight(5))
    } else if name == "BGP_OPEN"@ {
        Some(Constant::Eight(1))
    } else if name == "BGP_NOTIFICATION"@ {
        Some(Constant::Eight(3))
    } else if name == "BGP_KEEPALIVE"@ {
        Some(Constant::Eight(4))
    } else {
        rest
    }
}

/// The constants from DNS_EUI64 to DNS_OPENPGPKEY of the built-in set, over the values
/// that `rest` gives for every other name.
pub open spec fn builtin_dns_more(name: Seq<char>, rest: Option<Constant>) -> Option<Constant> {
    if name == "DNS_OPENPGPKEY"@ {
        Some(Constant::Sixteen(61))
    } else if name == "DNS_NS"@ {
        Some(Constant::Sixteen(2))
    } else if name == "DNS_NAPTR"@ {
        Some(Constant::Sixteen(35))
    } else if name == "DNS_MX"@ {
        Some(Constant::Sixteen(15))
    } else if name == "DNS_MINFO"@ {
        Some(Constant::Sixteen(14))
    } else if name == "DNS_LOC"@ {
        Some(Constant::Sixteen(29))
    } else if name == "DNS_IPSECKEY"@ {
        Some(Constant::Sixteen(45))
    } else if name == "DNS_IN"@ {
        Some(Constant::Sixteen(1))
    } else if name == "DNS_HS"@ {
        Some(Constant::Sixteen(4))
    } else if name == "DNS_HINFO"@ {
        Some(Constant::Sixteen(13))
    } else if name == "DNS_GPOS"@ {
        Some(Constant::Sixteen(27))
    } else if name == "DNS_EUI64"@ {
        Some(Constant::Sixteen(109))
    } else {
        rest
    }
}

/// The constants from DNS_OPT to ETHERTYPE_WAKE_ON_LAN of the built-in set, over the values
/// that `rest` gives for every other name.
pub open spec fn builtin_dns_ether(name: Seq<char>, rest: Option<Constant>) -> Option<Constant> {
    if name == "ETHERTYPE_WAKE_ON_LAN"@ {
        Some(Constant::Sixteen(0x0842))
    } else if name == "ETHERTYPE_IPV6"@ {
        Some(Constant::Sixteen(0x86DD))
    } else if name == "ETHERTYPE_IPV4"@ {
        Some(Constant::Sixteen(0x0800))
    } else if name == "ETHERTYPE_ARP"@ {
        Some(Constant::Sixteen(0x0806))
    } else if name == "DNS_URI"@ {
        Some(Constant::Sixteen(256))
    } else if name == "DNS_TXT"@ {
        Some(Constant::Sixteen(16))
    } else if name == "DNS_TLSA"@ {
        Some(Constant::Sixteen(52))
    } else if name == "DNS_SSHFP"@ {
        Some(Constant::Sixteen(44))
    } else if name == "DNS_SRV"@ {
        Some(Constant::Sixteen(33))
    } else if name == "DNS_SOA"@ {
        Some(Constant::Sixteen(6))
    } else if name == "DNS_PTR"@ {
        Some(Constant::Sixteen(12))
    } else if name == "DNS_OPT"@ {
        Some(Constant::Sixteen(41))
    } else {
        rest
    }
}

/// The constants from GZIP_DEFLATE to ICMP_ADDRESS_MASK_REPLY of the built-in set, over the values
/// that `rest` gives for every other name.
pub open spec fn builtin_gzip(name: Seq<char>, rest: Option<Constant>) -> Option<Constant> {
    if name == "ICMP_ADDRESS_MASK_REPLY"@ {
        Some(Constant::Eight(18))
    } else if name == "GZIP_UNIX"@ {
        Some(Constant::Eight(3))
    } else if name == "GZIP_SLOWEST"@ {
        Some(Constant::Eight(0x02))
    } else if name == "GZIP_NT"@ {
        Some(Constant::Eight(11))
    } else if name == "GZIP_FTEXT"@ {
        Some(Constant::Eight(0x01))
    } else if name == "GZIP_FNAME"@ {
        Some(Constant::Eight(0x08))
    } else if name == "GZIP_FHCRC"@ {
        Some(Constant::Eight(0x02))
    } else if name == "GZIP_FEXTRA"@ {
        Some(Constant::Eight(0x04))
    } else if name == "GZIP_FCOMMENT"@ {
        Some(Constant::Eight(0x10))
    } else if name == "GZIP_FAT"@ {
        Some(Constant::Eight(0))
    } else if name == "GZIP_FASTEST"@ {
        Some(Constant::Eight(0x04))
    } else if name == "GZIP_DEFLATE"@ {
        Some(Constant::Eight(0x08))
    } else {
        rest
    }
}

/// The constants from ICMP_ADDRESS_MASK_REQUEST to IP_ICMP of the built-in set, over the values
/// that `rest` gives for every other name.
pub open spec fn builtin_icmp(name: Seq<char>, rest: Option<Constant>) -> Option<Constant> {
    if name == "IP_ICMP"@ {
        Some(Constant::Eight(1))
    } else if name == "ICMP_TIME_EXCEEDED"@ {
        Some(Constant::Eight(11))
    } else if name == "ICMP_TIMESTAMP_REQUEST"@ {
        Some(Constant::Eight(13))
    } else if name == "ICMP_TIMESTAMP_REPLY"@ {
        Some(Constant::Eight(14))
    } else if name == "ICMP_ROUTER_SOLICITATION"@ {
        Some(Constant::Eight(10))
    } else if name == "ICMP_ROUTER_ADVERTISEMENT"@ {
        Some(Constant::Eight(9))
    } else if name == "ICMP_REDIRECT"@ {
        Some(Constant::Eight(5))
    } else if name == "ICMP_PARAMETER_PROBLEM"@ {
        Some(Constant::Eight(12))
    } else if name == "ICMP_ECHO_REPLY"@ {
        Some(Constant::Eight(0))
    } else if name == "ICMP_ECHO"@ {
        Some(Constant::Eight(8))
    } else if name == "ICMP_DESTINATION_UNREACHABLE"@ {
        Some(Constant::Eight(2))
    } else if name == "ICMP_ADDRESS_MASK_REQUEST"@ {
        Some(Constant::Eight(17))
    } else {
        rest
    }
}

/// The constants from IP_IGMP to TCP_URG of the built-in set, over the values
/// that `rest` gives for every other name.
pub open spec fn builtin_ip_tcp(name: Seq<char>, rest: Option<Constant>) -> Option<Constant> {
    if name == "TCP_URG"@ {
        Some(Constant::Sixteen(0x0020))
    } else if name == "TCP_SYN"@ {
        Some(Constant::Sixteen(0x0002))
    } else if name == "TCP_RST"@ {
        Some(Constant::Sixteen(0x0004))
    } else if name == "TCP_PSH"@ {
        Some(Constant::Sixteen(0x0008))
    } else if name == "TCP_FIN"@ {
        Some(Constant::Sixteen(0x0001))
    } else if name == "TCP_ECN"@ {
        Some(Constant::Sixteen(0x0040))
    } else if name == "TCP_CWR"@ {
        Some(Constant::Sixteen(0x0080))
    } else if name == "TCP_ACK"@ {
        Some(Constant::Sixteen(0x0010))
    } else if name == "IP_UDP"@ {
        Some(Constant::Eight(17))
    } else if name == "IP_TCP"@ {
        Some(Constant::Eight(6))
    } else if name == "IP_SCTP"@ {
        Some(Constant::Eight(132))
    } else if name == "IP_IGMP"@ {
        Some(Constant::Eight(2))
    } else {
        rest
    }
}

/// The value of each constant of the built-in set, by name.
pub open spec fn builtin_constant(name: Seq<char>) -> Option<Constant> {
    builtin_ip_tcp(name, builtin_icmp(name, builtin_gzip(name, builtin_dns_ether(name, builtin_dns_more(name, builtin_bgp_dns(name, None))))))
}


/// Whether every character from index `i` on is an uppercase letter, a
/// digit or an underscore.
pub open spec fn name_tail_ok(s: Seq<char>, i: int) -> bool
    decreases s.len() - i,
{
    if i < 0 || i >= s.len() {
        true
    } else {
        (is_upper_char(s[i]) || is_digit_char(s[i]) || s[i] == '_') && name_tail_ok(s, i + 1)
    }
}

proof fn lemma_name_tail(s: Seq<char>, i: int)
    requires
        0 <= i,
        name_tail_ok(s, i),
    ensures
        forall|j: int| i <= j < s.len() ==> is_upper_char(#[trigger] s[j]) || is_digit_char(s[j]) || s[j] == '_',
    decreases s.len() - i,
{
    if i < s.len() {
        lemma_name_tail(s, i + 1);
    }
}

proof fn lemma_constant_name(s: Seq<char>, underscore: int)
    requires
        s.len() >= 3,
        0 <= underscore < s.len(),
        s[underscore] == '_',
        is_upper_char(s[0]),
        name_tail_ok(s, 1),
    ensures
        is_constant_name_spec(s),
{
    lemma_name_tail(s, 1);
}

/// Every name that the constants from BGP_KEEPALIVE to DNS_EUI48 give a value is a
/// constant name.
proof fn lemma_names_bgp_dns(name: Seq<char>, rest: Option<Constant>)
    requires
        builtin_bgp_dns(name, rest) is Some,
        rest is Some ==> is_constant_name_spec(name),
    ensures
        is_constant_name_spec(name),
{
    reveal_with_fuel(name_tail_ok, 28);
    if name == "BGP_KEEPALIVE"@ {
        reveal_strlit("BGP_KEEPALIVE");
        lemma_constant_name(name, 3);
    } else if name == "BGP_NOTIFICATION"@ {
        reveal_strlit("BGP_NOTIFICATION");
        lemma_constant_name(name, 3);
    } else if name == "BGP_OPEN"@ {
        reveal_strlit("BGP_OPEN");
        lemma_constant_name(name, 3);
    } else if name == "BGP_ROUTE_REFRESH"@ {
        reveal_strlit("BGP_ROUTE_REFRESH");
        lemma_constant_name(name, 3);
    } else if name == "BGP_UPDATE"@ {
        reveal_strlit("BGP_UPDATE");
        lemma_constant_name(name, 3);
    } else if name == "DNS_A"@ {
        reveal_strlit("DNS_A");
        lemma_constant_name(name, 3);
    } else if name == "DNS_AAAA"@ {
        reveal_strlit("DNS_AAAA");
        lemma_constant_name(name, 3);
    } else if name == "DNS_ANY"@ {
        reveal_strlit("DNS_ANY");
        lemma_constant_name(name, 3);
    } else if name == "DNS_CAA"@ {
        reveal_strlit("DNS_CAA");
        lemma_constant_name(name, 3);
    } else if name == "DNS_CH"@ {
        reveal_strlit("DNS_CH");
        lemma_constant_name(name, 3);
    } else if name == "DNS_CNAME"@ {
        reveal_strlit("DNS_CNAME");
        lemma_constant_name(name, 3);
    } else if name == "DNS_EUI48"@ {
        reveal_strlit("DNS_EUI48");
        lemma_constant_name(name, 3);
    }
}

/// Every name that the constants from DNS_EUI64 to DNS_OPENPGPKEY give a value is a
/// constant name.
proof fn lemma_names_dns_more(name: Seq<char>, rest: Option<Constant>)
    requires
        builtin_dns_more(name, rest) is Some,
        rest is Some ==> is_constant_name_spec(name),
    ensures
        is_constant_name_spec(name),
{
    reveal_with_fuel(name_tail_ok, 28);
    if name == "DNS_EUI64"@ {
        reveal_strlit("DNS_EUI64");
        lemma_constant_name(name, 3);
    } else if name == "DNS_GPOS"@ {
        reveal_strlit("DNS_GPOS");
        lemma_constant_name(name, 3);
    } else if name == "DNS_HINFO"@ {
        reveal_strlit("DNS_HINFO");
        lemma_constant_name(name, 3);
    } else if name == "DNS_HS"@ {
        reveal_strlit("DNS_HS");
        lemma_constant_name(name, 3);
    } else if name == "DNS_IN"@ {
        reveal_strlit("DNS_IN");
        lemma_constant_name(name, 3);
    } else if name == "DNS_IPSECKEY"@ {
        reveal_strlit("DNS_IPSECKEY");
        lemma_constant_name(name, 3);
    } else if name == "DNS_LOC"@ {
        reveal_strlit("DNS_LOC");
        lemma_constant_name(name, 3);
    } else if name == "DNS_MINFO"@ {
        reveal_strlit("DNS_MINFO");
        lemma_constant_name(name, 3);
    } else if name == "DNS_MX"@ {
        reveal_strlit("DNS_MX");
        lemma_constant_name(name, 3);
    } else if name == "DNS_NAPTR"@ {
        reveal_strlit("DNS_NAPTR");
        lemma_constant_name(name, 3);
    } else if name == "DNS_NS"@ {
        reveal_strlit("DNS_NS");
        lemma_constant_name(name, 3);
    } else if name == "DNS_OPENPGPKEY"@ {
        reveal_strlit("DNS_OPENPGPKEY");
        lemma_constant_name(name, 3);
    }
}

/// Every name that the constants from DNS_OPT to ETHERTYPE_WAKE_ON_LAN give a value is a
/// constant name.
proof fn lemma_names_dns_ether(name: Seq<char>, rest: Option<Constant>)
    requires
        builtin_dns_ether(name, rest) is Some,
        rest is Some ==> is_constant_name_spec(name),
    ensures
        is_constant_name_spec(name),
{
    reveal_with_fuel(name_tail_ok, 28);
    if name == "DNS_OPT"@ {
        reveal_strlit("DNS_OPT");
        lemma_constant_name(name, 3);
    } else if name == "DNS_PTR"@ {
        reveal_strlit("DNS_PTR");
        lemma_constant_name(name, 3);
    } else if name == "DNS_SOA"@ {
        reveal_strlit("DNS_SOA");
        lemma_constant_name(name, 3);
    } else if name == "DNS_SRV"@ {
        reveal_strlit("DNS_SRV");
        lemma_constant_name(name, 3);
    } else if name == "DNS_SSHFP"@ {
        reveal_strlit("DNS_SSHFP");
        lemma_constant_name(name, 3);
    } else if name == "DNS_TLSA"@ {
        reveal_strlit("DNS_TLSA");
        lemma_constant_name(name, 3);
    } else if name == "DNS_TXT"@ {
        reveal_strlit("DNS_TXT");
        lemma_constant_name(name, 3);
    } else if name == "DNS_URI"@ {
        reveal_strlit("DNS_URI");
        lemma_constant_name(name, 3);
    } else if name == "ETHERTYPE_ARP"@ {
        reveal_strlit("ETHERTYPE_ARP");
        lemma_constant_name(name, 9);
    } else if name == "ETHERTYPE_IPV4"@ {
        reveal_strlit("ETHERTYPE_IPV4");
        lemma_constant_name(name, 9);
    } else if name == "ETHERTYPE_IPV6"@ {
        reveal_strlit("ETHERTYPE_IPV6");
        lemma_constant_name(name, 9);
    } else if name == "ETHERTYPE_WAKE_ON_LAN"@ {
        reveal_strlit("ETHERTYPE_WAKE_ON_LAN");
        lemma_constant_name(name, 9);
    }
}

/// Every name that the constants from GZIP_DEFLATE to ICMP_ADDRESS_MASK_REPLY give a value is a
/// constant name.
proof fn lemma_names_gzip(name: Seq<char>, rest: Option<Constant>)
    requires
        builtin_gzip(name, rest) is Some,
        rest is Some ==> is_constant_name_spec(name),
    ensures
        is_constant_name_spec(name),
{
    reveal_with_fuel(name_tail_ok, 28);
    if name == "GZIP_DEFLATE"@ {
        reveal_strlit("GZIP_DEFLATE");
        lemma_constant_name(name, 4);
    } else if name == "GZIP_FASTEST"@ {
        reveal_strlit("GZIP_FASTEST");
        lemma_constant_name(name, 4);
    } else if name == "GZIP_FAT"@ {
        reveal_strlit("GZIP_FAT");
        lemma_constant_name(name, 4);
    } else if name == "GZIP_FCOMMENT"@ {
        reveal_strlit("GZIP_FCOMMENT");
        lemma_constant_name(name, 4);
    } else if name == "GZIP_FEXTRA"@ {
        reveal_strlit("GZIP_FEXTRA");
        lemma_constant_name(name, 4);
    } else if name == "GZIP_FHCRC"@ {
        reveal_strlit("GZIP_FHCRC");
        lemma_constant_name(name, 4);
    } else if name == "GZIP_FNAME"@ {
        reveal_strlit("GZIP_FNAME");
        lemma_constant_name(name, 4);
    } else if name == "GZIP_FTEXT"@ {
        reveal_strlit("GZIP_FTEXT");
        lemma_constant_name(name, 4);
    } else if name == "GZIP_NT"@ {
        reveal_strlit("GZIP_NT");
        lemma_constant_name(name, 4);
    } else if name == "GZIP_SLOWEST"@ {
        reveal_strlit("GZIP_SLOWEST");
        lemma_constant_name(name, 4);
    } else if name == "GZIP_UNIX"@ {
        reveal_strlit("GZIP_UNIX");
        lemma_constant_name(name, 4);
    } else if name == "ICMP_ADDRESS_MASK_REPLY"@ {
        reveal_strlit("ICMP_ADDRESS_MASK_REPLY");
        lemma_constant_name(name, 4);
    }
}

/// Every name that the constants from ICMP_ADDRESS_MASK_REQUEST to IP_ICMP give a value is a
/// constant name.
proof fn lemma_names_icmp(name: Seq<char>, rest: Option<Constant>)
    requires
        builtin_icmp(name, rest) is Some,
        rest is Some ==> is_constant_name_spec(name),
    ensures
        is_constant_name_spec(name),
{
    reveal_with_fuel(name_tail_ok, 28);
    if name == "ICMP_ADDRESS_MASK_REQUEST"@ {
        reveal_strlit("ICMP_ADDRESS_MASK_REQUEST");
        lemma_constant_name(name, 4);
    } else if name == "ICMP_DESTINATION_UNREACHABLE"@ {
        reveal_strlit("ICMP_DESTINATION_UNREACHABLE");
        lemma_constant_name(name, 4);
    } else if name == "ICMP_ECHO"@ {
        reveal_strlit("ICMP_ECHO");
        lemma_constant_name(name, 4);
    } else if name == "ICMP_ECHO_REPLY"@ {
        reveal_strlit("ICMP_ECHO_REPLY");
        lemma_constant_name(name, 4);
    } else if name == "ICMP_PARAMETER_PROBLEM"@ {
        reveal_strlit("ICMP_PARAMETER_PROBLEM");
        lemma_constant_name(name, 4);
    } else if name == "ICMP_REDIRECT"@ {
        reveal_strlit("ICMP_REDIRECT");
        lemma_constant_name(name, 4);
    } else if name == "ICMP_ROUTER_ADVERTISEMENT"@ {
        reveal_strlit("ICMP_ROUTER_ADVERTISEMENT");
        lemma_constant_name(name, 4);
    } else if name == "ICMP_ROUTER_SOLICITATION"@ {
        reveal_strlit("ICMP_ROUTER_SOLICITATION");
        lemma_constant_name(name, 4);
    } else if name == "ICMP_TIMESTAMP_REPLY"@ {
        reveal_strlit("ICMP_TIMESTAMP_REPLY");
        lemma_constant_name(name, 4);
    } else if name == "ICMP_TIMESTAMP_REQUEST"@ {
        reveal_strlit("ICMP_TIMESTAMP_REQUEST");
        lemma_constant_name(name, 4);
    } else if name == "ICMP_TIME_EXCEEDED"@ {
        reveal_strlit("ICMP_TIME_EXCEEDED");
        lemma_constant_name(name, 4);
    } else if name == "IP_ICMP"@ {
        reveal_strlit("IP_ICMP");
        lemma_constant_name(name, 2);
    }
}

/// Every name that the constants from IP_IGMP to TCP_URG give a value is a
/// constant name.
proof fn lemma_names_ip_tcp(name: Seq<char>, rest: Option<Constant>)
    requires
        builtin_ip_tcp(name, rest) is Some,
        rest is Some ==> is_constant_name_spec(name),
    ensures
        is_constant_name_spec(name),
{
    reveal_with_fuel(name_tail_ok, 28);
    if name == "IP_IGMP"@ {
        reveal_strlit("IP_IGMP");
        lemma_constant_name(name, 2);
    } else if name == "IP_SCTP"@ {
        reveal_strlit("IP_SCTP");
        lemma_constant_name(name, 2);
    } else if name == "IP_TCP"@ {
        reveal_strlit("IP_TCP");
        lemma_constant_name(name, 2);
    } else if name == "IP_UDP"@ {
        reveal_strlit("IP_UDP");
        lemma_constant_name(name, 2);
    } else if name == "TCP_ACK"@ {
        reveal_strlit("TCP_ACK");
        lemma_constant_name(name, 3);
    } else if name == "TCP_CWR"@ {
        reveal_strlit("TCP_CWR");
        lemma_constant_name(name, 3);
    } else if name == "TCP_ECN"@ {
        reveal_strlit("TCP_ECN");
        lemma_constant_name(name, 3);
    } else if name == "TCP_FIN"@ {
        reveal_strlit("TCP_FIN");
        lemma_constant_name(name, 3);
    } else if name == "TCP_PSH"@ {
        reveal_strlit("TCP_PSH");
        lemma_constant_name(name, 3);
    } else if name == "TCP_RST"@ {
        reveal_strlit("TCP_RST");
        lemma_constant_name(name, 3);
    } else if name == "TCP_SYN"@ {
        reveal_strlit("TCP_SYN");
        lemma_constant_name(name, 3);
    } else if name == "TCP_URG"@ {
        reveal_strlit("TCP_URG");
        lemma_constant_name(name, 3);
    }
}

/// Every name that the built-in set gives a value is a constant name.
pub proof fn lemma_builtin_names(name: Seq<char>)
    requires
        builtin_constant(name) is Some,
    ensures
        is_constant_name_spec(name),
{
    let r0 = builtin_bgp_dns(name, None::<Constant>);
    if r0 is Some {
        lemma_names_bgp_dns(name, None::<Constant>);
    }
    let r1 = builtin_dns_more(name, r0);
    if r1 is Some {
        lemma_names_dns_more(name, r0);
    }
    let r2 = builtin_dns_ether(name, r1);
    if r2 is Some {
        lemma_names_dns_ether(name, r1);
    }
    let r3 = builtin_gzip(name, r2);
    if r3 is Some {
        lemma_names_gzip(name, r2);
    }
    let r4 = builtin_icmp(name, r3);
    if r4 is Some {
        lemma_names_icmp(name, r3);
    }
    let r5 = builtin_ip_tcp(name, r4);
    if r5 is Some {
        lemma_names_ip_tcp(name, r4);
    }
}

impl NameTable<Constant> {
    /// Looks up the value of a constant by its name, returning an error if
    /// no such constant exists.
    pub fn lookup(&self, name: &str) -> (r: Result<Constant, UnknownConstant>)
        ensures
            match self.get(name@) {
                Some(c) => r == Ok::<Constant, UnknownConstant>(c),
                None => r matches Err(e) && e.name@ == name@,
            },
    {
        match self.find(name) {
            Some(c) => Ok(c),
            None => Err(UnknownConstant { name: name.to_owned() }),
        }
    }

    /// Inserts the constants from BGP_KEEPALIVE to DNS_EUI48 of the built-in set.
    fn insert_bgp_dns(table: &mut Table)
        requires
            old(table).wf(),
        ensures
            final(table).wf(),
            forall|name: Seq<char>| #[trigger] final(table).get(name) == builtin_bgp_dns(name, old(table).get(name)),
    {
        table.insert("BGP_KEEPALIVE".to_owned(), Constant::Eight(4));
        table.insert("BGP_NOTIFICATION".to_owned(), Constant::Eight(3));
        table.insert("BGP_OPEN".to_owned(), Constant::Eight(1));
        table.insert("BGP_ROUTE_REFRESH".to_owned(), Constant::Eight(5));
        table.insert("BGP_UPDATE".to_owned(), Constant::Eight(2));
        table.insert("DNS_A".to_owned(), Constant::Sixteen(1));
        table.insert("DNS_AAAA".to_owned(), Constant::Sixteen(28));
        table.insert("DNS_ANY".to_owned(), Constant::Sixteen(255));
        table.insert("DNS_CAA".to_owned(), Constant::Sixteen(257));
        table.insert("DNS_CH".to_owned(), Constant::Sixteen(3));
        table.insert("DNS_CNAME".to_owned(), Constant::Sixteen(5));
        table.insert("DNS_EUI48".to_owned(), Constant::Sixteen(108));
    }

    /// Inserts the constants from DNS_EUI64 to DNS_OPENPGPKEY of the built-in set.
    fn insert_dns_more(table: &mut Table)
        requires
            old(table).wf(),
        ensures
            final(table).wf(),
            forall|name: Seq<char>| #[trigger] final(table).get(name) == builtin_dns_more(name, old(table).get(name)),
    {
        table.insert("DNS_EUI64".to_owned(), Constant::Sixteen(109));
        table.insert("DNS_GPOS".to_owned(), Constant::Sixteen(27));
        table.insert("DNS_HINFO".to_owned(), Constant::Sixteen(13));
        table.insert("DNS_HS".to_owned(), Constant::Sixteen(4));
        table.insert("DNS_IN".to_owned(), Constant::Sixteen(1));
        table.insert("DNS_IPSECKEY".to_owned(), Constant::Sixteen(45));
        table.insert("DNS_LOC".to_owned(), Constant::Sixteen(29));
        table.insert("DNS_MINFO".to_owned(), Constant::Sixteen(14));
        table.insert("DNS_MX".to_owned(), Constant::Sixteen(15));
        table.insert("DNS_NAPTR".to_owned(), Constant::Sixteen(35));
        table.insert("DNS_NS".to_owned(), Constant::Sixteen(2));
        table.insert("DNS_OPENPGPKEY".to_owned(), Constant::Sixteen(61));
    }

    /// Inserts the constants from DNS_OPT to ETHERTYPE_WAKE_ON_LAN of the built-in set.
    fn insert_dns_ether(table: &mut Table)
        requires
            old(table).wf(),
        ensures
            final(table).wf(),
            forall|name: Seq<char>| #[trigger] final(table).get(name) == builtin_dns_ether(name, old(table).get(name)),
    {
        table.insert("DNS_OPT".to_owned(), Constant::Sixteen(41));
        table.insert("DNS_PTR".to_owned(), Constant::Sixteen(12));
        table.insert("DNS_SOA".to_owned(), Constant::Sixteen(6));
        table.insert("DNS_SRV".to_owned(), Constant::Sixteen(33));
        table.insert("DNS_SSHFP".to_owned(), Constant::Sixteen(44));
        table.insert("DNS_TLSA".to_owned(), Constant::Sixteen(52));
        table.insert("DNS_TXT".to_owned(), Constant::Sixteen(16));
        table.insert("DNS_URI".to_owned(), Constant::Sixteen(256));
        table.insert("ETHERTYPE_ARP".to_owned(), Constant::Sixteen(0x0806));
        table.insert("ETHERTYPE_IPV4".to_owned(), Constant::Sixteen(0x0800));
        table.insert("ETHERTYPE_IPV6".to_owned(), Constant::Sixteen(0x86DD));
        table.insert("ETHERTYPE_WAKE_ON_LAN".to_owned(), Constant::Sixteen(0x0842));
    }

    /// Inserts the constants from GZIP_DEFLATE to ICMP_ADDRESS_MASK_REPLY of the built-in set.
    fn insert_gzip(table: &mut Table)
        requires
            old(table).wf(),
        ensures
            final(table).wf(),
            forall|name: Seq<char>| #[trigger] final(table).get(name) == builtin_gzip(name, old(table).get(name)),
    {
        table.insert("GZIP_DEFLATE".to_owned(), Constant::Eight(0x08));
        table.insert("GZIP_FASTEST".to_owned(), Constant::Eight(0x04));
        table.insert("GZIP_FAT".to_owned(), Constant::Eight(0));
        table.insert("GZIP_FCOMMENT".to_owned(), Constant::Eight(0x10));
        table.insert("GZIP_FEXTRA".to_owned(), Constant::Eight(0x04));
        table.insert("GZIP_FHCRC".to_owned(), Constant::Eight(0x02));
        table.insert("GZIP_FNAME".to_owned(), Constant::Eight(0x08));
        table.insert("GZIP_FTEXT".to_owned(), Constant::Eight(0x01));
        table.insert("GZIP_NT".to_owned(), Constant::Eight(11));
        table.insert("GZIP_SLOWEST".to_owned(), Constant::Eight(0x02));
        table.insert("GZIP_UNIX".to_owned(), Constant::Eight(3));
        table.insert("ICMP_ADDRESS_MASK_REPLY".to_owned(), Constant::Eight(18));
    }

    /// Inserts the constants from ICMP_ADDRESS_MASK_REQUEST to IP_ICMP of the built-in set.
    fn insert_icmp(table: &mut Table)
        requires
            old(table).wf(),
        ensures
            final(table).wf(),
            forall|name: Seq<char>| #[trigger] final(table).get(name) == builtin_icmp(name, old(table).get(name)),
    {
        table.insert("ICMP_ADDRESS_MASK_REQUEST".to_owned(), Constant::Eight(17));
        table.insert("ICMP_DESTINATION_UNREACHABLE".to_owned(), Constant::Eight(2));
        table.insert("ICMP_ECHO".to_owned(), Constant::Eight(8));
        table.insert("ICMP_ECHO_REPLY".to_owned(), Constant::Eight(0));
        table.insert("ICMP_PARAMETER_PROBLEM".to_owned(), Constant::Eight(12));
        table.insert("ICMP_REDIRECT".to_owned(), Constant::Eight(5));
        table.insert("ICMP_ROUTER_ADVERTISEMENT".to_owned(), Constant::Eight(9));
        table.insert("ICMP_ROUTER_SOLICITATION".to_owned(), Constant::Eight(10));
        table.insert("ICMP_TIMESTAMP_REPLY".to_owned(), Constant::Eight(14));
        table.insert("ICMP_TIMESTAMP_REQUEST".to_owned(), Constant::Eight(13));
        table.insert("ICMP_TIME_EXCEEDED".to_owned(), Constant::Eight(11));
        table.insert("IP_ICMP".to_owned(), Constant::Eight(1));
    }

    /// Inserts the constants from IP_IGMP to TCP_URG of the built-in set.
    fn insert_ip_tcp(table: &mut Table)
        requires
            old(table).wf(),
        ensures
            final(table).wf(),
            forall|name: Seq<char>| #[trigger] final(table).get(name) == builtin_ip_tcp(name, old(table).get(name)),
    {
        table.insert("IP_IGMP".to_owned(), Constant::Eight(2));
        table.insert("IP_SCTP".to_owned(), Constant::Eight(132));
        table.insert("IP_TCP".to_owned(), Constant::Eight(6));
        table.insert("IP_UDP".to_owned(), Constant::Eight(17));
        table.insert("TCP_ACK".to_owned(), Constant::Sixteen(0x0010));
        table.insert("TCP_CWR".to_owned(), Constant::Sixteen(0x0080));
        table.insert("TCP_ECN".to_owned(), Constant::Sixteen(0x0040));
        table.insert("TCP_FIN".to_owned(), Constant::Sixteen(0x0001));
        table.insert("TCP_PSH".to_owned(), Constant::Sixteen(0x0008));
        table.insert("TCP_RST".to_owned(), Constant::Sixteen(0x0004));
        table.insert("TCP_SYN".to_owned(), Constant::Sixteen(0x0002));
        table.insert("TCP_URG".to_owned(), Constant::Sixteen(0x0020));
    }

    /// Creates a new constants table holding the built-in set of
    /// networking protocol values, in the order of their names.
    pub fn builtin_set() -> (r: Table)
        ensures
            r.wf(),
            forall|name: Seq<char>| #[trigger] r.get(name) == builtin_constant(name),
            forall|name: Seq<char>| #[trigger] builtin_constant(name) is Some ==> is_constant_name_spec(name),
    {
        let mut table = Table::empty();
        Self::insert_bgp_dns(&mut table);
        Self::insert_dns_more(&mut table);
        Self::insert_dns_ether(&mut table);
        Self::insert_gzip(&mut table);
        Self::insert_icmp(&mut table);
        Self::insert_ip_tcp(&mut table);
        assert forall|name: Seq<char>| #[trigger] builtin_constant(name) is Some implies is_constant_name_spec(name) by {
            lemma_builtin_names(name);
        }
        table
    }
}


proof fn lemma_lookup_update<V>(entries: Seq<(Seq<char>, V)>, k: int, e: (Seq<char>, V), n: Seq<char>)
    requires
        0 <= k < entries.len(),
        entries[k].0 == e.0,
        n != e.0,
    ensures
        lookup_in(entries.update(k, e), n) == lookup_in(entries, n),
    decreases entries.len(),
{
    if k > 0 {
        assert(entries.update(k, e).drop_first() =~= entries.drop_first().update(k - 1, e));
        lemma_lookup_update(entries.drop_first(), k - 1, e, n);
    } else {
        assert(entries.update(k, e).drop_first() =~= entries.drop_first());
    }
}

proof fn lemma_lookup_push<V>(entries: Seq<(Seq<char>, V)>, e: (Seq<char>, V), n: Seq<char>)
    requires
        n != e.0,
    ensures
        lookup_in(entries.push(e), n) == lookup_in(entries, n),
    decreases entries.len(),
{
    if entries.len() > 0 {
        assert(entries.push(e).drop_first() =~= entries.drop_first().push(e));
        lemma_lookup_push(entries.drop_first(), e, n);
    } else {
        let pushed = entries.push(e);
        assert(pushed.drop_first() =~= Seq::<(Seq<char>, V)>::empty());
        assert(pushed[0] == e);
        assert(lookup_in(pushed.drop_first(), n) is None);
    }
}

} // verus!
