//! The same-origin check on the WebSocket upgrade.
//!
//! A page that the user's browser visits could open a WebSocket to the bridge
//! and ride on the network's authentication. A browser always says which origin
//! a page comes from, so the bridge admits its own origin and those that it was
//! told to trust.

use vstd::prelude::*;
use crate::text;
use crate::web::asset::{plain, Reply};

verus! {

/// The authority (host and port) of an origin: what follows its scheme.
pub open spec fn authority(origin: Seq<char>) -> Seq<char> {
    match text::after_first(origin, "://"@) {
        Some(rest) => rest,
        None => origin,
    }
}

/// Which upgrades are admitted.
/// - All of them, where the check is switched off.
/// - Those without an origin: they do not come from a browser.
/// - Those whose origin, with its scheme or without, is on the allow-list.
/// - Those whose authority is the host that the request was sent to.
pub open spec fn admitted(
    origin: Option<Seq<char>>,
    host: Option<Seq<char>>,
    allowed: Seq<Seq<char>>,
    allow_any: bool,
) -> bool {
    match origin {
        None => true,
        Some(origin) => {
            ||| allow_any
            ||| allowed.contains(origin)
            ||| allowed.contains(authority(origin))
            ||| host == Some(authority(origin))
        },
    }
}

/// A byte that may stand in a header value that is read as text.
pub open spec fn visible_ascii(byte: u8) -> bool {
    32 <= byte < 127 || byte == 9
}

/// The text of a header value. There is none where the header is absent, nor where
/// it holds anything but visible ASCII. A value that cannot be read is not an absent
/// one: whoever makes a difference for absent headers has to tell the two apart.
pub open spec fn header_text(value: Option<Seq<u8>>) -> Option<Seq<char>> {
    match value {
        Some(bytes) if forall|i: int| 0 <= i < bytes.len() ==> visible_ascii(#[trigger] bytes[i]) => {
            Some(bytes.map_values(|byte: u8| byte as char))
        },
        _ => None,
    }
}

/// Which upgrades are admitted, by their raw headers. Only an absent origin is
/// exempt from the check: one that is there and cannot be read is no origin that
/// the bridge could trust.
pub open spec fn upgrade_admitted(
    origin: Option<Seq<u8>>,
    host: Option<Seq<u8>>,
    allowed: Seq<Seq<char>>,
    allow_any: bool,
) -> bool {
    ||| allow_any
    ||| origin is None
    ||| header_text(origin) is Some && admitted(
        header_text(origin),
        header_text(host),
        allowed,
        allow_any,
    )
}

/// Whether a WebSocket upgrade with this `Origin` and this `Host` is admitted.
pub fn origin_allowed(
    origin: Option<&str>,
    host: Option<&str>,
    allowed: &[String],
    allow_any: bool,
) -> (yes: bool)
    ensures
        yes == admitted(origin.deep_view(), host.deep_view(), allowed.deep_view(), allow_any),
{
    if allow_any {
        return true;
    }
    let page = match origin {
        Some(page) => page,
        None => {
            return true;
        },
    };
    let site = match text::rest_after(page, "://") {
        Some(rest) => rest,
        None => page.to_string(),
    };
    let ghost list = allowed.deep_view();
    for i in 0..allowed.len()
        invariant
            origin == Some(page),
            site@ == authority(page@),
            list == allowed.deep_view(),
            forall|k: int| 0 <= k < i ==> #[trigger] list[k] != page@ && list[k] != site@,
    {
        assert(list[i as int] == allowed@[i as int]@);
        if text::same_text(allowed[i].as_str(), page) || allowed[i] == site {
            return true;
        }
    }
    match host {
        Some(host) => text::same_text(host, site.as_str()),
        None => false,
    }
}

/// The text of a header value.
pub fn header_str(value: Option<&[u8]>) -> (header: Option<String>)
    ensures
        header.deep_view() == header_text(value.deep_view()),
{
    match value {
        Some(bytes) => {
            let ghost all = bytes.deep_view();
            let mut header = String::new();
            for i in 0..bytes.len()
                invariant
                    value == Some(bytes),
                    all == bytes.deep_view(),
                    forall|k: int| 0 <= k < i ==> visible_ascii(#[trigger] all[k]),
                    header@ == all.take(i as int).map_values(|byte: u8| byte as char),
            {
                let byte = bytes[i];
                assert(all[i as int] == byte);
                if !((32 <= byte && byte < 127) || byte == 9) {
                    return None;
                }
                header.push(byte as char);
                assert(header@ == all.take(i + 1).map_values(|byte: u8| byte as char));
            }
            assert(all.take(all.len() as int) == all);
            Some(header)
        },
        None => None,
    }
}

/// Decides on a WebSocket upgrade by its raw `Origin` and `Host` headers: admits
/// it, or says what to reply instead.
pub fn ws_handler(
    origin: Option<&[u8]>,
    host: Option<&[u8]>,
    allowed: &[String],
    allow_any: bool,
) -> (refused: Option<Reply>)
    ensures
        refused is None <==> upgrade_admitted(
            origin.deep_view(),
            host.deep_view(),
            allowed.deep_view(),
            allow_any,
        ),
        refused matches Some(reply) ==> reply@ == plain(403, "cross-origin websocket rejected"@),
        refused matches Some(reply) ==> {
            &&& reply matches Reply::Plain { status, message }
            &&& status == 403
            &&& message@ == "cross-origin websocket rejected"@
        },
{
    let origin_text = header_str(origin);
    let host_text = header_str(host);
    let page = match &origin_text {
        Some(page) => Some(page.as_str()),
        None => None,
    };
    let target = match &host_text {
        Some(target) => Some(target.as_str()),
        None => None,
    };
    let readable = origin.is_none() || page.is_some();
    if allow_any || (readable && origin_allowed(page, target, allowed, allow_any)) {
        None
    } else {
        Some(
            Reply::Plain { status: 403, message: "cross-origin websocket rejected".to_string() },
        )
    }
}

/// The authority of an origin that is written with a scheme is what follows it.
proof fn lemma_authority(scheme: Seq<char>, host: Seq<char>)
    requires
        !scheme.contains(':'),
    ensures
        authority(scheme + "://"@ + host) == host,
    decreases scheme.len(),
{
    reveal_strlit("://");
    let origin = scheme + "://"@ + host;
    if scheme.len() == 0 {
        assert(origin.take(3) == "://"@);
        assert(origin.skip(3) == host);
    } else {
        let rest = scheme.skip(1);
        assert(origin.skip(1) == rest + "://"@ + host);
        assert(scheme.contains(scheme[0]));
        assert(origin.take(3)[0] != "://"@[0]);
        assert forall|c: char| rest.contains(c) implies scheme.contains(c) by {
            let i = choose|i: int| 0 <= i < rest.len() && rest[i] == c;
            assert(scheme[i + 1] == c);
        }
        lemma_authority(rest, host);
        assert(text::after_first(origin, "://"@) == text::after_first(origin.skip(1), "://"@));
        assert(text::after_first(rest + "://"@ + host, "://"@) is Some) by {
            lemma_has_scheme(rest, host);
        }
    }
}

proof fn lemma_has_scheme(scheme: Seq<char>, host: Seq<char>)
    ensures
        text::after_first(scheme + "://"@ + host, "://"@) is Some,
    decreases scheme.len(),
{
    reveal_strlit("://");
    let origin = scheme + "://"@ + host;
    if scheme.len() == 0 {
        assert(origin.take(3) == "://"@);
    } else {
        assert(origin.skip(1) == scheme.skip(1) + "://"@ + host);
        lemma_has_scheme(scheme.skip(1), host);
    }
}

/// The bridge's own pages are always admitted, whatever the scheme and whatever
/// else is on the allow-list.
pub proof fn lemma_same_origin_is_admitted(
    scheme: Seq<char>,
    host: Seq<char>,
    allowed: Seq<Seq<char>>,
    allow_any: bool,
)
    requires
        !scheme.contains(':'),
    ensures
        admitted(Some(scheme + "://"@ + host), Some(host), allowed, allow_any),
{
    lemma_authority(scheme, host);
}

/// A page of another site is rejected, unless the check is switched off or the
/// allow-list names its origin or its authority.
pub proof fn lemma_cross_origin_is_rejected(
    scheme: Seq<char>,
    site: Seq<char>,
    host: Option<Seq<char>>,
    allowed: Seq<Seq<char>>,
)
    requires
        !scheme.contains(':'),
        host != Some(site),
        !allowed.contains(scheme + "://"@ + site),
        !allowed.contains(site),
    ensures
        !admitted(Some(scheme + "://"@ + site), host, allowed, false),
{
    lemma_authority(scheme, site);
}

/// An origin that is there but cannot be read is refused while the check is on,
/// whatever the host and whatever is on the allow-list.
pub proof fn lemma_unreadable_origin_is_refused(
    origin: Seq<u8>,
    i: int,
    host: Option<Seq<u8>>,
    allowed: Seq<Seq<char>>,
)
    requires
        0 <= i < origin.len(),
        !visible_ascii(origin[i]),
    ensures
        !upgrade_admitted(Some(origin), host, allowed, false),
{
}

/// Trust only ever admits: whoever is admitted under one allow-list is admitted
/// under any that holds all of its entries. Everyone on the list is admitted, and
/// everyone at all where the check is switched off.
pub proof fn lemma_trust_only_admits(
    origin: Option<Seq<u8>>,
    host: Option<Seq<u8>>,
    allowed: Seq<Seq<char>>,
    more: Seq<Seq<char>>,
    allow_any: bool,
)
    requires
        forall|entry: Seq<char>| #[trigger] allowed.contains(entry) ==> more.contains(entry),
    ensures
        upgrade_admitted(origin, host, allowed, allow_any) ==> upgrade_admitted(
            origin,
            host,
            more,
            allow_any,
        ),
        header_text(origin) matches Some(page) && (allowed.contains(page) || allowed.contains(
            authority(page),
        )) ==> upgrade_admitted(origin, host, allowed, allow_any),
        upgrade_admitted(origin, host, allowed, true),
{
}

/// The bytes of a header value that spell a text: printable ASCII or tabs, one byte per
/// character.
pub open spec fn spells(bytes: Seq<u8>, header: Seq<char>) -> bool {
    &&& bytes.len() == header.len()
    &&& forall|i: int|
        0 <= i < bytes.len() ==> (32 <= #[trigger] bytes[i] <= 126 || bytes[i] == 9) && header[i]
            == bytes[i] as char
}

/// A header is read as the text that its bytes spell, and as no other; one that spells
/// none, or is not there, is not read.
pub proof fn lemma_header_text(value: Option<Seq<u8>>, header: Seq<char>)
    ensures
        header_text(value) == Some(header) <==> value is Some && spells(value->0, header),
{
    if let Some(bytes) = value {
        let read = bytes.map_values(|byte: u8| byte as char);
        if spells(bytes, header) {
            assert forall|i: int| 0 <= i < bytes.len() implies visible_ascii(
                #[trigger] bytes[i],
            ) by {}
            assert(read == header);
        }
        if header_text(value) == Some(header) {
            assert(read == header);
            assert forall|i: int| 0 <= i < bytes.len() implies (32 <= #[trigger] bytes[i] <= 126
                || bytes[i] == 9) && header[i] == bytes[i] as char by {
                assert(visible_ascii(bytes[i]));
                assert(read[i] == bytes[i] as char);
            }
        }
    }
}

/// The authority of an origin is what follows its first `://`, and the whole origin
/// where it has none.
pub proof fn lemma_authority_follows_the_scheme(scheme: Seq<char>, site: Seq<char>)
    ensures
        (forall|i: int|
            0 <= i < scheme.len() ==> !#[trigger] text::occurs_at(
                scheme + "://"@ + site,
                "://"@,
                i,
            )) ==> authority(scheme + "://"@ + site) == site,
        (forall|i: int| !#[trigger] text::occurs_at(site, "://"@, i)) ==> authority(site) == site,
{
    reveal_strlit("://");
    let origin = scheme + "://"@ + site;
    let head = text::lemma_after_first(origin, "://"@);
    let k = scheme.len() as int;
    assert(origin.subrange(k, k + 3) == "://"@);
    assert(text::occurs_at(origin, "://"@, k));
    if forall|i: int| 0 <= i < k ==> !#[trigger] text::occurs_at(origin, "://"@, i) {
        let rest = authority(origin);
        let h = head.len() as int;
        assert(origin == head + "://"@ + rest);
        assert(origin.subrange(h, h + 3) == "://"@);
        assert(text::occurs_at(origin, "://"@, h));
        assert(h == k);
        assert(rest == origin.skip(h + 3));
        assert(site == origin.skip(k + 3));
    }
    let before = text::lemma_after_first(site, "://"@);
    if let Some(rest) = text::after_first(site, "://"@) {
        let h = before.len() as int;
        assert(site == before + "://"@ + rest);
        assert(site.subrange(h, h + 3) == "://"@);
        assert(text::occurs_at(site, "://"@, h));
    }
}

/// While the check is on, a page that says where it comes from is admitted exactly where
/// the allow-list names its origin or its site, or where the request was sent to that
/// very site: host and port, to the letter.
pub proof fn lemma_pages_are_admitted_by_their_site(
    scheme: Seq<char>,
    site: Seq<char>,
    origin: Seq<u8>,
    host: Option<Seq<u8>>,
    allowed: Seq<Seq<char>>,
)
    requires
        forall|i: int|
            0 <= i < scheme.len() ==> !#[trigger] text::occurs_at(
                scheme + "://"@ + site,
                "://"@,
                i,
            ),
        spells(origin, scheme + "://"@ + site),
    ensures
        upgrade_admitted(Some(origin), host, allowed, false) <==> {
            ||| allowed.contains(scheme + "://"@ + site)
            ||| allowed.contains(site)
            ||| host is Some && spells(host->0, site)
        },
{
    lemma_header_text(Some(origin), scheme + "://"@ + site);
    lemma_header_text(host, site);
    lemma_authority_follows_the_scheme(scheme, site);
}

/// An origin without a scheme is taken for a site.
pub proof fn lemma_bare_origins_are_sites(
    site: Seq<char>,
    origin: Seq<u8>,
    host: Option<Seq<u8>>,
    allowed: Seq<Seq<char>>,
)
    requires
        forall|i: int| !#[trigger] text::occurs_at(site, "://"@, i),
        spells(origin, site),
    ensures
        upgrade_admitted(Some(origin), host, allowed, false) <==> allowed.contains(site) || host
            is Some && spells(host->0, site),
{
    lemma_header_text(Some(origin), site);
    lemma_header_text(host, site);
    lemma_authority_follows_the_scheme(site, site);
}

/// The bridge's own pages are admitted by their raw headers: whatever the scheme, with
/// or without a port, whoever else is trusted.
pub proof fn lemma_own_pages_are_admitted(
    scheme: Seq<char>,
    site: Seq<char>,
    origin: Seq<u8>,
    host: Seq<u8>,
    allowed: Seq<Seq<char>>,
    allow_any: bool,
)
    requires
        !scheme.contains(':'),
        spells(origin, scheme + "://"@ + site),
        spells(host, site),
    ensures
        upgrade_admitted(Some(origin), Some(host), allowed, allow_any),
{
    lemma_scheme_comes_first(scheme, site);
    lemma_pages_are_admitted_by_their_site(scheme, site, origin, Some(host), allowed);
    lemma_header_text(Some(origin), scheme + "://"@ + site);
}

proof fn lemma_scheme_comes_first(scheme: Seq<char>, site: Seq<char>)
    requires
        !scheme.contains(':'),
    ensures
        forall|i: int|
            0 <= i < scheme.len() ==> !#[trigger] text::occurs_at(
                scheme + "://"@ + site,
                "://"@,
                i,
            ),
{
    reveal_strlit("://");
    let origin = scheme + "://"@ + site;
    assert forall|i: int| 0 <= i < scheme.len() implies !#[trigger] text::occurs_at(
        origin,
        "://"@,
        i,
    ) by {
        if text::occurs_at(origin, "://"@, i) {
            assert(origin.subrange(i, i + 3)[0] == scheme[i]);
            assert(scheme.contains(scheme[i]));
        }
    }
}

/// A page of another site is refused by its raw headers while the check is on, unless
/// the allow-list names its origin or its site.
pub proof fn lemma_other_pages_are_refused(
    scheme: Seq<char>,
    site: Seq<char>,
    origin: Seq<u8>,
    host: Option<Seq<u8>>,
    allowed: Seq<Seq<char>>,
)
    requires
        !scheme.contains(':'),
        spells(origin, scheme + "://"@ + site),
        host is Some ==> !spells(host->0, site),
        !allowed.contains(scheme + "://"@ + site),
        !allowed.contains(site),
    ensures
        !upgrade_admitted(Some(origin), host, allowed, false),
{
    lemma_scheme_comes_first(scheme, site);
    lemma_pages_are_admitted_by_their_site(scheme, site, origin, host, allowed);
}

/// Whoever is not a browser, and says nothing of an origin, is admitted; so is everyone
/// where the check is switched off. The texts of the headers decide as the headers do.
pub proof fn lemma_exempt_from_the_check(
    origin: Option<Seq<u8>>,
    host: Option<Seq<u8>>,
    page: Option<Seq<char>>,
    target: Option<Seq<char>>,
    allowed: Seq<Seq<char>>,
    allow_any: bool,
)
    ensures
        upgrade_admitted(None, host, allowed, allow_any),
        upgrade_admitted(origin, host, allowed, true),
        admitted(None, target, allowed, allow_any),
        admitted(page, target, allowed, true),
        origin is Some && page is Some && spells(origin->0, page->0) && (host is Some && target
            is Some && spells(host->0, target->0) || host is None && target is None)
            ==> upgrade_admitted(origin, host, allowed, allow_any) == admitted(
            page,
            target,
            allowed,
            allow_any,
        ),
{
    if page is Some {
        lemma_header_text(origin, page->0);
    }
    if target is Some {
        lemma_header_text(host, target->0);
    }
}

} // verus!
