//! Turning the form's texts into a configuration.
use vstd::prelude::*;

use crate::config::{
    AppConfig, AuthConfig, CampusConfig, ConfigError, ConfigFault, ConfigView, DaemonConfig,
    DetectConfig,
};
use crate::text;
use crate::text::{chars_of, parse_u64_chars, string_of, trim_chars, trim_str};

verus! {

/// `s` cut at every comma (a trailing piece always follows the last one).
pub open spec fn split_commas(s: Seq<char>) -> Seq<Seq<char>>
    decreases s.len(),
{
    if s.len() == 0 {
        seq![Seq::empty()]
    } else {
        let prev = split_commas(s.drop_last());
        if s.last() == ',' {
            prev.push(Seq::empty())
        } else {
            prev.update(prev.len() - 1, prev.last().push(s.last()))
        }
    }
}

/// The pieces trimmed, with the empty ones left out.
pub open spec fn nonblank_trimmed(parts: Seq<Seq<char>>) -> Seq<Seq<char>>
    decreases parts.len(),
{
    if parts.len() == 0 {
        Seq::empty()
    } else {
        let prev = nonblank_trimmed(parts.drop_last());
        let t = text::trim(parts.last());
        if t.len() == 0 {
            prev
        } else {
            prev.push(t)
        }
    }
}

/// The items of a comma-separated list: split at commas, trimmed, and the
/// empty ones dropped.
pub open spec fn csv_items(s: Seq<char>) -> Seq<Seq<char>> {
    nonblank_trimmed(split_commas(s))
}

proof fn lemma_split_commas_nonempty(s: Seq<char>)
    ensures
        split_commas(s).len() >= 1,
    decreases s.len(),
{
    if s.len() > 0 {
        lemma_split_commas_nonempty(s.drop_last());
    }
}

fn push_trimmed(items: &mut Vec<String>, piece: &Vec<char>)
    ensures
        text::strings_view(final(items)@) == (if text::trim(piece@).len() == 0 {
            text::strings_view(old(items)@)
        } else {
            text::strings_view(old(items)@).push(text::trim(piece@))
        }),
{
    let t = trim_chars(piece);
    if t.len() > 0 {
        items.push(string_of(&t));
        assert(text::strings_view(final(items)@) =~= text::strings_view(old(items)@).push(
            text::trim(piece@),
        ));
    }
}

/// The items of a comma-separated list.
pub fn parse_csv_list(value: &str) -> (r: Vec<String>)
    ensures
        text::strings_view(r@) == csv_items(value@),
{
    let s = chars_of(value);
    let mut items: Vec<String> = Vec::new();
    let mut cur: Vec<char> = Vec::new();
    let ghost mut done: Seq<Seq<char>> = Seq::empty();
    let mut i: usize = 0;
    assert(s@.subrange(0, 0) =~= Seq::<char>::empty());
    assert(split_commas(Seq::<char>::empty()) =~= done.push(cur@));
    assert(text::strings_view(items@) =~= Seq::<Seq<char>>::empty());
    while i < s.len()
        invariant
            i <= s@.len(),
            split_commas(s@.subrange(0, i as int)) == done.push(cur@),
            text::strings_view(items@) == nonblank_trimmed(done),
        decreases s@.len() - i,
    {
        let c = s[i];
        proof {
            assert(s@.subrange(0, i + 1).drop_last() =~= s@.subrange(0, i as int));
            assert(s@.subrange(0, i + 1).last() == c);
        }
        if c == ',' {
            push_trimmed(&mut items, &cur);
            proof {
                assert(done.push(cur@).drop_last() =~= done);
                done = done.push(cur@);
            }
            cur = Vec::new();
            assert(split_commas(s@.subrange(0, i + 1)) =~= done.push(cur@));
        } else {
            let ghost old_cur = cur@;
            cur.push(c);
            proof {
                let prev = done.push(old_cur);
                assert(prev.update(prev.len() - 1, prev.last().push(c)) =~= done.push(cur@));
            }
        }
        i = i + 1;
    }
    push_trimmed(&mut items, &cur);
    proof {
        assert(s@.subrange(0, s@.len() as int) =~= s@);
        assert(done.push(cur@).drop_last() =~= done);
    }
    items
}

// ---------------------------------------------------------------------------
// Building the configuration
// ---------------------------------------------------------------------------

/// Why the form's texts do not make a configuration.
#[derive(Debug, Clone, PartialEq, Eq)]
pub enum FormError {
    OnlineInterval,
    RequestTimeout,
    Invalid(ConfigError),
}

pub enum FormFault {
    OnlineInterval,
    RequestTimeout,
    Invalid(ConfigFault),
}

impl View for FormError {
    type V = FormFault;

    open spec fn view(&self) -> FormFault {
        match self {
            FormError::OnlineInterval => FormFault::OnlineInterval,
            FormError::RequestTimeout => FormFault::RequestTimeout,
            FormError::Invalid(e) => FormFault::Invalid(e@),
        }
    }
}

pub open spec fn form_fault_message(f: FormFault) -> Seq<char> {
    match f {
        FormFault::OnlineInterval => "online check interval must be a positive integer"@,
        FormFault::RequestTimeout => "request timeout must be a positive integer"@,
        FormFault::Invalid(c) => crate::config::fault_message(c),
    }
}

impl FormError {
    pub fn message(&self) -> (m: String)
        ensures
            m@ == form_fault_message(self@),
    {
        match self {
            FormError::OnlineInterval => String::from_str(
                "online check interval must be a positive integer",
            ),
            FormError::RequestTimeout => String::from_str(
                "request timeout must be a positive integer",
            ),
            FormError::Invalid(e) => e.message(),
        }
    }
}

/// The configuration the form's eight texts describe, once both numbers
/// parse: user name, portal and probe URLs trimmed, the password as typed,
/// the two lists split at commas, and the offline interval the form keeps.
pub open spec fn form_config(texts: Seq<Seq<char>>, offline_check_interval_secs: u64) -> ConfigView {
    ConfigView {
        username: text::trim(texts[0]),
        password: texts[1],
        portal_url: text::trim(texts[2]),
        probe_url: text::trim(texts[3]),
        request_timeout_secs: text::parse_u64_text(text::trim(texts[5]))->0 as u64,
        online_check_interval_secs: text::parse_u64_text(text::trim(texts[4]))->0 as u64,
        offline_check_interval_secs,
        ipv4_cidrs: csv_items(texts[6]),
        gateway_hosts: csv_items(texts[7]),
    }
}

/// What the form makes of its texts: the online interval must parse, then
/// the request timeout, then the configuration must be valid.
pub open spec fn form_result(texts: Seq<Seq<char>>, offline_check_interval_secs: u64) -> Result<
    ConfigView,
    FormFault,
> {
    if text::parse_u64_text(text::trim(texts[4])) is None {
        Err(FormFault::OnlineInterval)
    } else if text::parse_u64_text(text::trim(texts[5])) is None {
        Err(FormFault::RequestTimeout)
    } else {
        match crate::config::config_fault(form_config(texts, offline_check_interval_secs)) {
            Some(f) => Err(FormFault::Invalid(f)),
            None => Ok(form_config(texts, offline_check_interval_secs)),
        }
    }
}

pub open spec fn form_result_view(r: Result<AppConfig, FormError>) -> Result<ConfigView, FormFault> {
    match r {
        Ok(c) => Ok(c@),
        Err(e) => Err(e@),
    }
}

/// Builds and checks a configuration from the form's eight texts (user
/// name, password, portal URL, probe URL, online interval, request
/// timeout, CIDRs, gateways) and the offline interval, which the form
/// carries over from the configuration it was opened on.
pub fn build_config(texts: &Vec<String>, offline_check_interval_secs: u64) -> (r: Result<
    AppConfig,
    FormError,
>)
    requires
        texts@.len() == 8,
    ensures
        form_result_view(r) == form_result(
            text::strings_view(texts@),
            offline_check_interval_secs,
        ),
{
    let ghost tv = text::strings_view(texts@);
    let online_text = trim_str(texts[4].as_str());
    let online = match parse_u64_chars(&online_text) {
        Some(v) => v,
        None => {
            return Err(FormError::OnlineInterval);
        },
    };
    let timeout_text = trim_str(texts[5].as_str());
    let timeout = match parse_u64_chars(&timeout_text) {
        Some(v) => v,
        None => {
            return Err(FormError::RequestTimeout);
        },
    };
    let username = trim_str(texts[0].as_str());
    let portal = trim_str(texts[2].as_str());
    let probe = trim_str(texts[3].as_str());
    let config = AppConfig {
        auth: AuthConfig {
            username: string_of(&username),
            password: texts[1].clone(),
            portal_url: string_of(&portal),
        },
        detect: DetectConfig { probe_url: string_of(&probe), request_timeout_secs: timeout },
        daemon: DaemonConfig {
            online_check_interval_secs: online,
            offline_check_interval_secs,
        },
        campus: CampusConfig {
            ipv4_cidrs: parse_csv_list(texts[6].as_str()),
            gateway_hosts: parse_csv_list(texts[7].as_str()),
        },
    };
    assert(config@ == form_config(tv, offline_check_interval_secs));
    match config.validate() {
        Ok(()) => Ok(config),
        Err(e) => Err(FormError::Invalid(e)),
    }
}

} // verus!

verus! {

proof fn lemma_nonblank_trimmed_items(parts: Seq<Seq<char>>)
    ensures
        forall|i: int|
            #![trigger nonblank_trimmed(parts)[i]]
            0 <= i < nonblank_trimmed(parts).len() ==> nonblank_trimmed(parts)[i].len() > 0
                && text::trim(nonblank_trimmed(parts)[i]) == nonblank_trimmed(parts)[i],
    decreases parts.len(),
{
    if parts.len() > 0 {
        lemma_nonblank_trimmed_items(parts.drop_last());
        let prev = nonblank_trimmed(parts.drop_last());
        let cur = nonblank_trimmed(parts);
        text::lemma_trim_idempotent(parts.last());
        assert forall|i: int| #![trigger cur[i]] 0 <= i < cur.len() implies cur[i].len() > 0
            && text::trim(cur[i]) == cur[i] by {
            if i < prev.len() {
                assert(cur[i] == prev[i]);
            }
        }
    }
}

/// Every item that `parse_csv_list` gives is non-empty and has no
/// surrounding whitespace.
pub proof fn lemma_csv_items_trimmed(value: Seq<char>)
    ensures
        forall|i: int|
            #![trigger csv_items(value)[i]]
            0 <= i < csv_items(value).len() ==> csv_items(value)[i].len() > 0 && text::trim(
                csv_items(value)[i],
            ) == csv_items(value)[i],
{
    lemma_nonblank_trimmed_items(split_commas(value));
}

} // verus!

verus! {

// ---------------------------------------------------------------------------
// Showing a configuration in the form and reading it back
// ---------------------------------------------------------------------------

/// The eight texts the setup form shows for a configuration, in field
/// order: the numbers in decimal, the lists joined with `", "`.
pub open spec fn form_texts(c: ConfigView) -> Seq<Seq<char>> {
    seq![
        c.username,
        c.password,
        c.portal_url,
        c.probe_url,
        text::decimal(c.online_check_interval_secs as nat),
        text::decimal(c.request_timeout_secs as nat),
        text::join(c.ipv4_cidrs, ", "@),
        text::join(c.gateway_hosts, ", "@),
    ]
}

/// A list that the form shows and reads back unchanged: every item is
/// non-empty, has no surrounding whitespace, and holds no comma.
pub open spec fn plain_list(items: Seq<Seq<char>>) -> bool {
    forall|i: int|
        #![trigger items[i]]
        0 <= i < items.len() ==> {
            &&& text::trim(items[i]) == items[i]
            &&& items[i].len() > 0
            &&& !items[i].contains(',')
        }
}

/// The pieces that cutting `items` joined with `", "` at its commas
/// gives: the first item, then each further one after a space.
spec fn joined_pieces(items: Seq<Seq<char>>) -> Seq<Seq<char>> {
    Seq::new(
        items.len(),
        |i: int|
            if i == 0 {
                items[0]
            } else {
                seq![' '] + items[i]
            },
    )
}

/// Text without commas added at the end only lengthens the last piece.
proof fn lemma_split_commas_append(a: Seq<char>, b: Seq<char>)
    requires
        !b.contains(','),
    ensures
        split_commas(a + b) == split_commas(a).update(
            split_commas(a).len() - 1,
            split_commas(a).last() + b,
        ),
    decreases b.len(),
{
    lemma_split_commas_nonempty(a);
    let p = split_commas(a);
    if b.len() == 0 {
        assert(a + b =~= a);
        assert(p.last() + b =~= p.last());
        assert(p.update(p.len() - 1, p.last() + b) =~= p);
    } else {
        let b0 = b.drop_last();
        if b0.contains(',') {
            let k = choose|k: int| 0 <= k < b0.len() && b0[k] == ',';
            assert(b[k] == ',');
            assert(false);
        }
        assert(b[b.len() - 1] == b.last());
        lemma_split_commas_append(a, b0);
        assert((a + b).drop_last() =~= a + b0);
        assert((a + b).last() == b.last());
        let q = split_commas(a + b0);
        assert(q.last().push(b.last()) =~= p.last() + b);
        assert(q.update(q.len() - 1, q.last().push(b.last())) =~= p.update(
            p.len() - 1,
            p.last() + b,
        ));
    }
}

/// Cutting a non-empty list joined with `", "` at its commas.
proof fn lemma_split_joined(items: Seq<Seq<char>>)
    requires
        items.len() > 0,
        forall|i: int| #![trigger items[i]] 0 <= i < items.len() ==> !items[i].contains(','),
    ensures
        split_commas(text::join(items, ", "@)) == joined_pieces(items),
    decreases items.len(),
{
    reveal_strlit(", ");
    if items.len() == 1 {
        assert(split_commas(Seq::<char>::empty()) =~= seq![Seq::<char>::empty()]);
        lemma_split_commas_append(Seq::<char>::empty(), items[0]);
        assert(Seq::<char>::empty() + items[0] =~= items[0]);
        assert(split_commas(items[0]) =~= joined_pieces(items));
    } else {
        let rest = items.drop_last();
        let x = items.last();
        assert(items[items.len() - 1] == x);
        lemma_split_joined(rest);
        let a = text::join(rest, ", "@);
        let tail = seq![' '] + x;
        if tail.contains(',') {
            let k = choose|k: int| 0 <= k < tail.len() && tail[k] == ',';
            assert(x[k - 1] == ',');
            assert(false);
        }
        assert(text::join(items, ", "@) =~= a.push(',') + tail);
        assert(a.push(',').drop_last() =~= a);
        let p = split_commas(a.push(','));
        assert(p =~= split_commas(a).push(Seq::<char>::empty()));
        lemma_split_commas_append(a.push(','), tail);
        assert(p.last() + tail =~= tail);
        assert(p.update(p.len() - 1, tail) =~= joined_pieces(items));
    }
}

/// A space before trimmed text is trimmed away with it.
proof fn lemma_trim_after_space(x: Seq<char>)
    ensures
        text::trim(seq![' '] + x) == text::trim(x),
{
    let s = seq![' '] + x;
    assert(text::is_white_space(s[0]));
    assert(s.drop_first() =~= x);
}

/// Trimming the pieces of a plain list and dropping the empty ones gives
/// the list back.
proof fn lemma_trimmed_pieces(items: Seq<Seq<char>>)
    requires
        plain_list(items),
    ensures
        nonblank_trimmed(joined_pieces(items)) == items,
    decreases items.len(),
{
    let parts = joined_pieces(items);
    if items.len() == 0 {
        assert(parts =~= Seq::<Seq<char>>::empty());
        assert(nonblank_trimmed(parts) =~= items);
    } else {
        let rest = items.drop_last();
        assert(plain_list(rest)) by {
            assert forall|i: int| #![trigger rest[i]] 0 <= i < rest.len() implies {
                &&& text::trim(rest[i]) == rest[i]
                &&& rest[i].len() > 0
                &&& !rest[i].contains(',')
            } by {
                assert(rest[i] == items[i]);
            }
        }
        lemma_trimmed_pieces(rest);
        assert(parts.drop_last() =~= joined_pieces(rest));
        let x = items[items.len() - 1];
        if items.len() > 1 {
            assert(parts.last() == seq![' '] + x);
            lemma_trim_after_space(x);
        }
        assert(text::trim(parts.last()) == x);
        assert(nonblank_trimmed(parts) =~= rest.push(x));
        assert(rest.push(x) =~= items);
    }
}

/// A plain list joined with `", "` reads back as itself.
pub proof fn lemma_csv_round_trip(items: Seq<Seq<char>>)
    requires
        plain_list(items),
    ensures
        csv_items(text::join(items, ", "@)) == items,
{
    if items.len() == 0 {
        assert(text::join(items, ", "@) =~= Seq::<char>::empty());
        assert(split_commas(Seq::<char>::empty()) =~= seq![Seq::<char>::empty()]);
        let parts = seq![Seq::<char>::empty()];
        assert(parts.drop_last() =~= Seq::<Seq<char>>::empty());
        assert(nonblank_trimmed(Seq::<Seq<char>>::empty()) == Seq::<Seq<char>>::empty());
        assert(text::trim(Seq::<char>::empty()) =~= Seq::<char>::empty());
        assert(nonblank_trimmed(parts) =~= Seq::<Seq<char>>::empty());
        assert(csv_items(text::join(items, ", "@)) == nonblank_trimmed(parts));
        assert(csv_items(text::join(items, ", "@)) =~= items);
    } else {
        assert forall|i: int| #![trigger items[i]] 0 <= i < items.len() implies !items[i].contains(
            ',',
        ) by {}
        lemma_split_joined(items);
        lemma_trimmed_pieces(items);
    }
}

/// Opening the setup form on a configuration and building it again with
/// nothing typed gives the same configuration back, checked like any
/// other: for a configuration whose user name and URLs have no
/// surrounding whitespace and whose lists are plain.
pub proof fn lemma_form_round_trip(c: ConfigView)
    requires
        text::trim(c.username) == c.username,
        text::trim(c.portal_url) == c.portal_url,
        text::trim(c.probe_url) == c.probe_url,
        plain_list(c.ipv4_cidrs),
        plain_list(c.gateway_hosts),
    ensures
        form_result(form_texts(c), c.offline_check_interval_secs) == (match crate::config::config_fault(c) {
            Some(f) => Err(FormFault::Invalid(f)),
            None => Ok::<ConfigView, FormFault>(c),
        }),
{
    let t = form_texts(c);
    text::lemma_decimal_parses_back(c.online_check_interval_secs);
    text::lemma_decimal_parses_back(c.request_timeout_secs);
    lemma_csv_round_trip(c.ipv4_cidrs);
    lemma_csv_round_trip(c.gateway_hosts);
    assert(form_config(t, c.offline_check_interval_secs) == c);
}

/// Items that the form writes out and reads back as they are: no
/// surrounding whitespace and no comma.
pub open spec fn trimmed_without_commas(items: Seq<Seq<char>>) -> bool {
    forall|i: int|
        #![trigger items[i]]
        0 <= i < items.len() ==> text::trim(items[i]) == items[i] && !items[i].contains(',')
}

/// The setup form opened on a valid configuration and built again with
/// nothing typed gives that configuration back: when the user name and
/// URLs have no surrounding whitespace, and the CIDRs and gateways are
/// trimmed and hold no comma.
pub proof fn lemma_valid_form_round_trip(c: ConfigView)
    requires
        crate::config::config_fault(c) is None,
        text::trim(c.username) == c.username,
        text::trim(c.portal_url) == c.portal_url,
        text::trim(c.probe_url) == c.probe_url,
        trimmed_without_commas(c.ipv4_cidrs),
        trimmed_without_commas(c.gateway_hosts),
    ensures
        form_result(form_texts(c), c.offline_check_interval_secs) == Ok::<ConfigView, FormFault>(c),
{
    crate::network::lemma_first_invalid_cidr_none(c.ipv4_cidrs);
    assert(plain_list(c.ipv4_cidrs)) by {
        assert forall|i: int| #![trigger c.ipv4_cidrs[i]] 0 <= i < c.ipv4_cidrs.len() implies {
            &&& text::trim(c.ipv4_cidrs[i]) == c.ipv4_cidrs[i]
            &&& c.ipv4_cidrs[i].len() > 0
            &&& !c.ipv4_cidrs[i].contains(',')
        } by {
            assert(crate::network::parsed_cidr(c.ipv4_cidrs[i]) is Some);
        }
    }
    assert(plain_list(c.gateway_hosts)) by {
        assert forall|i: int| #![trigger c.gateway_hosts[i]] 0 <= i < c.gateway_hosts.len() implies {
            &&& text::trim(c.gateway_hosts[i]) == c.gateway_hosts[i]
            &&& c.gateway_hosts[i].len() > 0
            &&& !c.gateway_hosts[i].contains(',')
        } by {
            if text::is_blank(c.gateway_hosts[i]) {
                assert(crate::config::has_blank_gateway(c.gateway_hosts));
            }
        }
    }
    lemma_form_round_trip(c);
}

} // verus!
