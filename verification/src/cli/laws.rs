//! What holds of the subcommands and of running all tunnels, whatever the tunnels are.

use vstd::prelude::*;

use crate::addr::SocketAddr;
use crate::cli::config::{ClientEntry, Config, HostEntry};
use crate::cli::run;
use crate::cli::run::{Cause, CliError, Outcome};
use crate::cli::run_all;
use crate::cli::run_all::{RunAction, RunAll, RunEvent, RunStep};
use crate::error::IoError;
use crate::key;
use crate::key::{HexError, PublicKey, SecretKey};
use crate::named;
use crate::named::Named;
use crate::text;
use crate::tunnel::client::{ClientTunnelBuilder, HostTarget, ReconnectPolicy};
use crate::tunnel::host::HostTunnelBuilder;
use crate::tunnel::{RelayMode, TunnelProtocol};

verus! {

/// A client tunnel that was added is there as it was asked for, and enabled, so that it is among the
/// tunnels that are run; every other tunnel stays as it was.
pub proof fn lemma_added_client_is_run(
    cfg: Config,
    host_key: Seq<char>,
    local: SocketAddr,
    protocol: TunnelProtocol,
    name: Seq<char>,
    new: Config,
    output: String,
)
    requires
        run::client_addition(cfg, host_key, local, protocol, name, Ok((new, output))),
    ensures
        new.host_tunnels@ == cfg.host_tunnels@,
        exists|e: ClientEntry| #[trigger]
            named::enabled_only(new.client_tunnels@).contains(e) && e.name@ == name && e.local
                == local && e.protocol == protocol && e.host_key@ == host_key && e.enabled
                && new.client_tunnels@.to_multiset() == cfg.client_tunnels@.to_multiset().insert(e),
{
    let e = choose|e: ClientEntry|
        e.name@ == name && e.local == local && e.protocol == protocol && e.host_key@ == host_key
            && e.enabled && new.client_tunnels@ == #[trigger] named::sorted_by_name(
            cfg.client_tunnels@.push(e),
        );
    run::lemma_added_in_order(cfg.client_tunnels@, e);
    broadcast use vstd::seq_lib::group_to_multiset_ensures;

    assert(new.client_tunnels@.to_multiset().count(e) > 0);
    assert(new.client_tunnels@.contains(e));
    let i = choose|i: int| 0 <= i < new.client_tunnels@.len() && new.client_tunnels@[i] == e;
    run_all::lemma_enabled_is_started(new.client_tunnels@, i);
}

/// Adding a client tunnel succeeds exactly where no tunnel has its name, its key is one in form and
/// no client tunnel has both its address and its protocol; the first of these that fails is told.
pub proof fn lemma_client_addition_outcome(
    cfg: Config,
    host_key: Seq<char>,
    local: SocketAddr,
    protocol: TunnelProtocol,
    name: Seq<char>,
    r: Result<(Config, String), CliError>,
)
    requires
        run::client_addition(cfg, host_key, local, protocol, name, r),
    ensures
        ({
            let named_so = (exists|i: int|
                0 <= i < cfg.host_tunnels@.len() && (#[trigger] cfg.host_tunnels@[i]).name@ == name)
                || (exists|i: int|
                0 <= i < cfg.client_tunnels@.len() && (#[trigger] cfg.client_tunnels@[i]).name@
                    == name);
            let placed_so = exists|i: int|
                0 <= i < cfg.client_tunnels@.len() && (#[trigger] cfg.client_tunnels@[i]).local
                    == local && cfg.client_tunnels@[i].protocol == protocol;
            match r {
                Ok((_, output)) => {
                    &&& !named_so
                    &&& key::hex_result(host_key) matches Ok(bytes) && bytes.len() == 32
                    &&& !placed_so
                    &&& output@ == "Created client tunnel \""@ + name + "\" on "@ + local.display()
                        + "/"@ + (match protocol {
                        TunnelProtocol::Tcp => "tcp"@,
                        TunnelProtocol::Udp => "udp"@,
                    }) + "\n"@
                },
                Err(e) => if named_so {
                    e.message@ == "tunnel name \""@ + name + "\" is already taken"@
                        && e.cause is None
                } else {
                    match key::hex_result(host_key) {
                        Err(why) => e.message@ == "host key is not valid hex"@ && e.cause == Some(
                            Cause::Hex(why),
                        ),
                        Ok(bytes) => if bytes.len() != 32 {
                            e.message@ == "host key must be 32 bytes (64 hex chars), got "@
                                + text::decimal(bytes.len()) && e.cause is None
                        } else {
                            placed_so && e.message@ == "client tunnel "@ + local.display() + "/"@
                                + (match protocol {
                                TunnelProtocol::Tcp => "tcp"@,
                                TunnelProtocol::Udp => "udp"@,
                            }) + " already exists"@ && e.cause is None
                        },
                    }
                },
            }
        }),
{
    cfg.lemma_has_name(name);
    if r is Ok {
        let output = r->Ok_0.1;
        assert(output@ == "Created client tunnel \""@ + name + "\" on "@ + local.display() + "/"@
            + protocol.display() + "\n"@);
    } else if !cfg.has_name(name) {
        assert("client tunnel "@ + run::place(local, protocol) + " already exists"@
            == "client tunnel "@ + local.display() + "/"@ + protocol.display()
            + " already exists"@);
    }
}

/// A host tunnel that was added is there as it was asked for, with its secret key, and enabled, so
/// that it is among the tunnels that are run; every other tunnel stays as it was.
pub proof fn lemma_added_host_is_run(
    cfg: Config,
    local: SocketAddr,
    protocol: TunnelProtocol,
    name: Seq<char>,
    secret: SecretKey,
    new: Config,
    output: Seq<char>,
)
    requires
        run::host_is_added(cfg, local, protocol, name, secret@, new, output),
    ensures
        new.client_tunnels@ == cfg.client_tunnels@,
        exists|e: HostEntry| #[trigger]
            named::enabled_only(new.host_tunnels@).contains(e) && e.name@ == name && e.local
                == local && e.protocol == protocol && key::hex_result(e.secret_key@) == Ok::<
                Seq<u8>,
                HexError,
            >(secret@) && e.enabled && new.host_tunnels@.to_multiset()
                == cfg.host_tunnels@.to_multiset().insert(e),
{
    let e = choose|e: HostEntry|
        run::new_host(e, local, protocol, name, secret@) && new.host_tunnels@ == #[trigger]
            named::sorted_by_name(cfg.host_tunnels@.push(e));
    run::lemma_added_in_order(cfg.host_tunnels@, e);
    run::lemma_keys_read_back(secret);
    broadcast use vstd::seq_lib::group_to_multiset_ensures;

    assert(new.host_tunnels@.to_multiset().count(e) > 0);
    assert(new.host_tunnels@.contains(e));
    let i = choose|i: int| 0 <= i < new.host_tunnels@.len() && new.host_tunnels@[i] == e;
    run_all::lemma_enabled_is_started(new.host_tunnels@, i);
}

/// What is printed for a new host tunnel ends in a command that fits it: the key in it is the public
/// key of the tunnel, and the word for the protocol is read as the protocol of the tunnel.
pub proof fn lemma_printed_command_fits(
    cfg: Config,
    local: SocketAddr,
    protocol: TunnelProtocol,
    name: Seq<char>,
    secret: SecretKey,
    new: Config,
    output: Seq<char>,
)
    requires
        run::host_is_added(cfg, local, protocol, name, secret@, new, output),
    ensures
        ({
            let word = match protocol {
                TunnelProtocol::Tcp => "tcp"@,
                TunnelProtocol::Udp => "udp"@,
            };
            let hex = key::hex_text(key::public_key_of(secret@));
            &&& output == "Created host tunnel \""@ + name + "\" on "@ + local.display() + "/"@
                + word + "\nPublic key: "@ + hex + "\nPeers can connect with:\n"@
                + "  lantun add-client "@ + hex + " <local> "@ + word + " <name>\n"@
            &&& forall|w: Seq<char>, r: Result<TunnelProtocol, IoError>|
                w == word && #[trigger] TunnelProtocol::named_by(w, r) ==> r == Ok::<
                    TunnelProtocol,
                    IoError,
                >(protocol)
            &&& key::hex_result(hex) == Ok::<Seq<u8>, HexError>(key::public_key_of(secret@))
            &&& exists|e: HostEntry| #[trigger]
                new.host_tunnels@.contains(e) && e.name@ == name && e.protocol == protocol
                    && e.spec_public_key_hex() == hex
        }),
{
    lemma_added_host_is_run(cfg, local, protocol, name, secret, new, output);
    run::lemma_keys_read_back(secret);
    let word = match protocol {
        TunnelProtocol::Tcp => "tcp"@,
        TunnelProtocol::Udp => "udp"@,
    };
    let hex = key::hex_text(key::public_key_of(secret@));
    assert forall|w: Seq<char>, r: Result<TunnelProtocol, IoError>|
        w == word && #[trigger] TunnelProtocol::named_by(w, r) implies r == Ok::<
        TunnelProtocol,
        IoError,
    >(protocol) by {
        protocol.lemma_name_read(r);
    }
    reveal_strlit("\nPeers can connect with:\n  lantun add-client ");
    reveal_strlit("\nPeers can connect with:\n");
    reveal_strlit("  lantun add-client ");
    assert("\nPeers can connect with:\n  lantun add-client "@ =~= "\nPeers can connect with:\n"@
        + "  lantun add-client "@);
    assert(output =~= "Created host tunnel \""@ + name + "\" on "@ + local.display() + "/"@ + word
        + "\nPublic key: "@ + hex + "\nPeers can connect with:\n"@ + "  lantun add-client "@ + hex
        + " <local> "@ + word + " <name>\n"@);
    let e = choose|e: HostEntry| #[trigger]
        named::enabled_only(new.host_tunnels@).contains(e) && e.name@ == name && e.local == local
            && e.protocol == protocol && key::hex_result(e.secret_key@) == Ok::<Seq<u8>, HexError>(
            secret@,
        ) && e.enabled && new.host_tunnels@.to_multiset()
            == cfg.host_tunnels@.to_multiset().insert(e);
    let run = named::enabled_only(new.host_tunnels@);
    let i = choose|i: int| 0 <= i < run.len() && run[i] == e;
    run_all::lemma_disabled_is_not_started(new.host_tunnels@, i);
    secret.lemma_len();
    assert(e.spec_public_key_hex() == hex);
}

/// Adding a host tunnel succeeds exactly where no tunnel has its name and no host tunnel has both
/// its address and its protocol; the first of these that fails is told.
pub proof fn lemma_host_addition_outcome(
    cfg: Config,
    local: SocketAddr,
    protocol: TunnelProtocol,
    name: Seq<char>,
    r: Result<Outcome, CliError>,
)
    requires
        run::host_addition(cfg, local, protocol, name, r),
    ensures
        ({
            let named_so = (exists|i: int|
                0 <= i < cfg.host_tunnels@.len() && (#[trigger] cfg.host_tunnels@[i]).name@ == name)
                || (exists|i: int|
                0 <= i < cfg.client_tunnels@.len() && (#[trigger] cfg.client_tunnels@[i]).name@
                    == name);
            let placed_so = exists|i: int|
                0 <= i < cfg.host_tunnels@.len() && (#[trigger] cfg.host_tunnels@[i]).local == local
                    && cfg.host_tunnels@[i].protocol == protocol;
            match r {
                Ok(o) => o is Save && !named_so && !placed_so,
                Err(e) => if named_so {
                    e.message@ == "tunnel name \""@ + name + "\" is already taken"@
                        && e.cause is None
                } else {
                    placed_so && e.message@ == "host tunnel "@ + local.display() + "/"@ + (
                    match protocol {
                        TunnelProtocol::Tcp => "tcp"@,
                        TunnelProtocol::Udp => "udp"@,
                    }) + " already exists"@ && e.cause is None
                },
            }
        }),
{
    cfg.lemma_has_name(name);
    if r is Err && !cfg.has_name(name) {
        assert("host tunnel "@ + run::place(local, protocol) + " already exists"@
            == "host tunnel "@ + local.display() + "/"@ + protocol.display() + " already exists"@);
    }
}

/// The line of a tunnel starts with its mark, a blank where it is enabled and a `d` where it is not,
/// and its name, hosts and clients alike.
pub proof fn lemma_line_starts_with_mark(h: HostEntry, c: ClientEntry)
    ensures
        h.enabled ==> ("  [ ] "@ + h.name@).is_prefix_of(run::host_line(h)),
        !h.enabled ==> ("  [d] "@ + h.name@).is_prefix_of(run::host_line(h)),
        c.enabled ==> ("  [ ] "@ + c.name@).is_prefix_of(run::client_line(c)),
        !c.enabled ==> ("  [d] "@ + c.name@).is_prefix_of(run::client_line(c)),
        run::host_line(h).len() > 3 && run::host_line(h)[3] == (if h.enabled {
            ' '
        } else {
            'd'
        }),
        run::client_line(c).len() > 3 && run::client_line(c)[3] == (if c.enabled {
            ' '
        } else {
            'd'
        }),
{
    reveal_strlit("  [ ] ");
    reveal_strlit("  [d] ");
    reveal_strlit("  [");
    reveal_strlit("] ");
    reveal_strlit(" ");
    reveal_strlit("d");
    assert("  ["@ + " "@ + "] "@ =~= "  [ ] "@);
    assert("  ["@ + "d"@ + "] "@ =~= "  [d] "@);
    lemma_sum_starts(
        "  ["@ + run::flag(h.enabled) + "] "@ + h.name@,
        ": "@,
        h.local.display(),
        " ("@,
        h.protocol.display(),
        ") key="@,
        h.spec_public_key_hex(),
        "\n"@,
    );
    lemma_sum_starts(
        "  ["@ + run::flag(c.enabled) + "] "@ + c.name@,
        ": "@,
        c.local.display(),
        " ("@,
        c.protocol.display(),
        ") -> "@,
        c.host_key@,
        "\n"@,
    );
}

proof fn lemma_sum_starts(
    s: Seq<char>,
    a: Seq<char>,
    b: Seq<char>,
    c: Seq<char>,
    d: Seq<char>,
    e: Seq<char>,
    f: Seq<char>,
    g: Seq<char>,
)
    ensures
        s.is_prefix_of(s + a + b + c + d + e + f + g),
        forall|i: int| 0 <= i < s.len() ==> (s + a + b + c + d + e + f + g)[i] == s[i],
{
    let x = s + a + b + c;
    let y = x + d + e + f + g;
    assert(forall|i: int| 0 <= i < s.len() ==> x[i] == s[i]);
    assert(forall|i: int| 0 <= i < x.len() ==> y[i] == x[i]);
    assert(y.subrange(0, s.len() as int) =~= s);
}

/// Whether a tunnel is enabled shows in its line in one character and nowhere else.
pub proof fn lemma_mark_is_one_character(h: HostEntry, c: ClientEntry)
    ensures
        run::host_line(HostEntry { enabled: true, ..h }).len() > 3,
        run::host_line(HostEntry { enabled: true, ..h })[3] == ' ',
        run::host_line(HostEntry { enabled: false, ..h }) == run::host_line(
            HostEntry { enabled: true, ..h },
        ).update(3, 'd'),
        run::client_line(ClientEntry { enabled: true, ..c }).len() > 3,
        run::client_line(ClientEntry { enabled: true, ..c })[3] == ' ',
        run::client_line(ClientEntry { enabled: false, ..c }) == run::client_line(
            ClientEntry { enabled: true, ..c },
        ).update(3, 'd'),
{
    reveal_strlit("  [");
    reveal_strlit(" ");
    reveal_strlit("d");
    lemma_line_starts_with_mark(
        HostEntry { enabled: true, ..h },
        ClientEntry { enabled: true, ..c },
    );
    assert(run::host_line(HostEntry { enabled: false, ..h }) =~= run::host_line(
        HostEntry { enabled: true, ..h },
    ).update(3, 'd'));
    assert(run::client_line(ClientEntry { enabled: false, ..c }) =~= run::client_line(
        ClientEntry { enabled: true, ..c },
    ).update(3, 'd'));
}

/// Lines come in the order of the tunnels: those of two lists, one after the other, are those of the
/// first, then those of the second; and the line of a single tunnel is its own.
pub proof fn lemma_lines_in_order<T>(a: Seq<T>, b: Seq<T>, t: T, line: spec_fn(T) -> Seq<char>)
    ensures
        run::lines(Seq::<T>::empty(), line) == Seq::<char>::empty(),
        run::lines(seq![t], line) == line(t),
        run::lines(a + b, line) == run::lines(a, line) + run::lines(b, line),
    decreases b.len(),
{
    assert(seq![t].drop_last() =~= Seq::<T>::empty());
    assert(run::lines(seq![t].drop_last(), line) =~= Seq::<char>::empty());
    assert(run::lines(seq![t], line) =~= line(t));
    if b.len() == 0 {
        assert(a + b =~= a);
        assert(run::lines(a, line) + run::lines(b, line) =~= run::lines(a, line));
    } else {
        lemma_lines_in_order(a, b.drop_last(), t, line);
        assert((a + b).drop_last() =~= a + b.drop_last());
        assert((a + b).last() == b.last());
        assert(run::lines(a + b, line) =~= run::lines(a, line) + run::lines(b, line));
    }
}

/// The list holds a section for the hosts and one for the clients. In each there is a line for each
/// tunnel, in order, with its mark, its name, its address, its protocol and its key; where there is
/// no tunnel, the section says so.
pub proof fn lemma_list_tells_all(cfg: Config)
    ensures
        run::list_words(cfg) == "Host tunnels:\n"@ + (if cfg.host_tunnels@.len() == 0 {
            "  (none)\n"@
        } else {
            run::lines(
                cfg.host_tunnels@,
                |t: HostEntry|
                    "  ["@ + (if t.enabled {
                        " "@
                    } else {
                        "d"@
                    }) + "] "@ + t.name@ + ": "@ + t.local.display() + " ("@ + (match t.protocol {
                        TunnelProtocol::Tcp => "tcp"@,
                        TunnelProtocol::Udp => "udp"@,
                    }) + ") key="@ + t.spec_public_key_hex() + "\n"@,
            )
        }) + "\nClient tunnels:\n"@ + (if cfg.client_tunnels@.len() == 0 {
            "  (none)\n"@
        } else {
            run::lines(
                cfg.client_tunnels@,
                |t: ClientEntry|
                    "  ["@ + (if t.enabled {
                        " "@
                    } else {
                        "d"@
                    }) + "] "@ + t.name@ + ": "@ + t.local.display() + " ("@ + (match t.protocol {
                        TunnelProtocol::Tcp => "tcp"@,
                        TunnelProtocol::Udp => "udp"@,
                    }) + ") -> "@ + t.host_key@ + "\n"@,
            )
        }),
{
    assert((|t: HostEntry| run::host_line(t)) =~= (|t: HostEntry|
        "  ["@ + (if t.enabled {
            " "@
        } else {
            "d"@
        }) + "] "@ + t.name@ + ": "@ + t.local.display() + " ("@ + (match t.protocol {
            TunnelProtocol::Tcp => "tcp"@,
            TunnelProtocol::Udp => "udp"@,
        }) + ") key="@ + t.spec_public_key_hex() + "\n"@));
    assert((|t: ClientEntry| run::client_line(t)) =~= (|t: ClientEntry|
        "  ["@ + (if t.enabled {
            " "@
        } else {
            "d"@
        }) + "] "@ + t.name@ + ": "@ + t.local.display() + " ("@ + (match t.protocol {
            TunnelProtocol::Tcp => "tcp"@,
            TunnelProtocol::Udp => "udp"@,
        }) + ") -> "@ + t.host_key@ + "\n"@));
}

proof fn lemma_lines_with_one_changed<T>(
    s: Seq<T>,
    i: int,
    t: T,
    at: int,
    c: char,
    line: spec_fn(T) -> Seq<char>,
)
    requires
        0 <= i < s.len(),
        0 <= at < line(s[i]).len(),
        line(t) == line(s[i]).update(at, c),
    ensures
        ({
            let p: int = run::lines(s.take(i), line).len() + at;
            &&& 0 <= p < run::lines(s, line).len()
            &&& run::lines(s, line)[p] == line(s[i])[at]
            &&& run::lines(s.update(i, t), line) == run::lines(s, line).update(p, c)
        }),
{
    let a = s.take(i);
    let b = s.skip(i + 1);
    let p: int = run::lines(a, line).len() + at;
    assert(s =~= a + seq![s[i]] + b);
    assert(s.update(i, t) =~= a + seq![t] + b);
    lemma_lines_in_order(a + seq![s[i]], b, s[i], line);
    lemma_lines_in_order(a, seq![s[i]], s[i], line);
    lemma_lines_in_order(a + seq![t], b, t, line);
    lemma_lines_in_order(a, seq![t], t, line);
    assert(run::lines(s, line) == run::lines(a, line) + line(s[i]) + run::lines(b, line));
    assert(run::lines(s.update(i, t), line) == run::lines(a, line) + line(t) + run::lines(b, line));
    assert(run::lines(s.update(i, t), line) =~= run::lines(s, line).update(p, c));
}

/// Disabling an enabled client tunnel changes the list in exactly one character, from a blank to a
/// `d`.
pub proof fn lemma_disabling_client_shows(cfg: Config, i: int, off: Config)
    requires
        0 <= i < cfg.client_tunnels@.len(),
        cfg.client_tunnels@[i].enabled,
        off.host_tunnels@ == cfg.host_tunnels@,
        off.client_tunnels@ == cfg.client_tunnels@.update(
            i,
            ClientEntry { enabled: false, ..cfg.client_tunnels@[i] },
        ),
    ensures
        exists|at: int|
            0 <= at < run::list_words(cfg).len() && #[trigger] run::list_words(cfg)[at] == ' '
                && run::list_words(off) == run::list_words(cfg).update(at, 'd'),
{
    let line = |t: ClientEntry| run::client_line(t);
    let of_host = |t: HostEntry| run::host_line(t);
    let t = ClientEntry { enabled: false, ..cfg.client_tunnels@[i] };
    lemma_mark_is_one_character(arbitrary(), t);
    assert(cfg.client_tunnels@[i] == (ClientEntry { enabled: true, ..t }));
    lemma_lines_with_one_changed(cfg.client_tunnels@, i, t, 3, 'd', line);
    let before = run::section("Host tunnels:\n"@, cfg.host_tunnels@, of_host)
        + "\nClient tunnels:\n"@;
    let p: int = run::lines(cfg.client_tunnels@.take(i), line).len() + 3int;
    let at: int = before.len() + p;
    assert(run::list_words(cfg) =~= before + run::lines(cfg.client_tunnels@, line));
    assert(run::list_words(off) =~= before + run::lines(off.client_tunnels@, line));
    assert(run::list_words(cfg)[at] == ' ');
    assert(run::list_words(off) =~= run::list_words(cfg).update(at, 'd'));
}

/// Disabling an enabled host tunnel changes the list in exactly one character, from a blank to a
/// `d`.
pub proof fn lemma_disabling_host_shows(cfg: Config, i: int, off: Config)
    requires
        0 <= i < cfg.host_tunnels@.len(),
        cfg.host_tunnels@[i].enabled,
        off.client_tunnels@ == cfg.client_tunnels@,
        off.host_tunnels@ == cfg.host_tunnels@.update(
            i,
            HostEntry { enabled: false, ..cfg.host_tunnels@[i] },
        ),
    ensures
        exists|at: int|
            0 <= at < run::list_words(cfg).len() && #[trigger] run::list_words(cfg)[at] == ' '
                && run::list_words(off) == run::list_words(cfg).update(at, 'd'),
{
    let line = |t: HostEntry| run::host_line(t);
    let of_client = |t: ClientEntry| run::client_line(t);
    let t = HostEntry { enabled: false, ..cfg.host_tunnels@[i] };
    lemma_mark_is_one_character(t, arbitrary());
    assert(cfg.host_tunnels@[i] == (HostEntry { enabled: true, ..t }));
    lemma_lines_with_one_changed(cfg.host_tunnels@, i, t, 3, 'd', line);
    let before = "Host tunnels:\n"@;
    let after = run::section("\nClient tunnels:\n"@, cfg.client_tunnels@, of_client);
    let p: int = run::lines(cfg.host_tunnels@.take(i), line).len() + 3int;
    let at: int = before.len() + p;
    assert(run::list_words(cfg) =~= before + run::lines(cfg.host_tunnels@, line) + after);
    assert(run::list_words(off) =~= before + run::lines(off.host_tunnels@, line) + after);
    assert(run::list_words(cfg)[at] == ' ');
    assert(run::list_words(off) =~= run::list_words(cfg).update(at, 'd'));
}

/// Removing a name keeps the tunnels of all other names, in their order, and no more.
pub proof fn lemma_removal_keeps_others(cfg: Config, name: Seq<char>)
    ensures
        named::without_name(cfg.host_tunnels@, name) == cfg.host_tunnels@.filter(
            |t: HostEntry| t.name@ != name,
        ),
        named::without_name(cfg.client_tunnels@, name) == cfg.client_tunnels@.filter(
            |t: ClientEntry| t.name@ != name,
        ),
{
    assert(named::not_called::<HostEntry>(name) =~= (|t: HostEntry| t.name@ != name));
    assert(named::not_called::<ClientEntry>(name) =~= (|t: ClientEntry| t.name@ != name));
}

/// Switching a name touches the enabled flag of the tunnels of that name, and tells the user which
/// way; where no tunnel has the name, it fails.
pub proof fn lemma_switch_outcome(
    cfg: Config,
    name: Seq<char>,
    on: bool,
    r: Result<Outcome, CliError>,
)
    requires
        run::switched(cfg, name, on, r),
    ensures
        ({
            let named_so = (exists|i: int|
                0 <= i < cfg.host_tunnels@.len() && (#[trigger] cfg.host_tunnels@[i]).name@ == name)
                || (exists|i: int|
                0 <= i < cfg.client_tunnels@.len() && (#[trigger] cfg.client_tunnels@[i]).name@
                    == name);
            match r {
                Ok(Outcome::Save { config, output }) => {
                    &&& named_so
                    &&& config.host_tunnels@ == cfg.host_tunnels@.map_values(
                        |t: HostEntry|
                            if t.name@ == name {
                                HostEntry { enabled: on, ..t }
                            } else {
                                t
                            },
                    )
                    &&& config.client_tunnels@ == cfg.client_tunnels@.map_values(
                        |t: ClientEntry|
                            if t.name@ == name {
                                ClientEntry { enabled: on, ..t }
                            } else {
                                t
                            },
                    )
                    &&& output@ == name + (if on {
                        ": enabled\n"@
                    } else {
                        ": disabled\n"@
                    })
                },
                Ok(_) => false,
                Err(e) => !named_so && e.message@ == "no tunnel named \""@ + name + "\""@
                    && e.cause is None,
            }
        }),
{
    cfg.lemma_has_name(name);
    if r is Ok {
        run::lemma_last_switch_counts(cfg, name, on, on);
        let config = r->Ok_0->config;
        let output = r->Ok_0->output;
        assert(config.host_tunnels@ =~= cfg.host_tunnels@.map_values(
            |t: HostEntry|
                if t.name@ == name {
                    HostEntry { enabled: on, ..t }
                } else {
                    t
                },
        ));
        assert(config.client_tunnels@ =~= cfg.client_tunnels@.map_values(
            |t: ClientEntry|
                if t.name@ == name {
                    ClientEntry { enabled: on, ..t }
                } else {
                    t
                },
        ));
        reveal_strlit(": ");
        reveal_strlit("enabled");
        reveal_strlit("disabled");
        reveal_strlit("\n");
        reveal_strlit(": enabled\n");
        reveal_strlit(": disabled\n");
        assert(output@ =~= name + (if on {
            ": enabled\n"@
        } else {
            ": disabled\n"@
        }));
    }
}

/// The tunnels that are run are those whose flag says so, in their order.
pub proof fn lemma_enabled_are_run(cfg: Config)
    ensures
        named::enabled_only(cfg.host_tunnels@) == cfg.host_tunnels@.filter(
            |t: HostEntry| t.enabled,
        ),
        named::enabled_only(cfg.client_tunnels@) == cfg.client_tunnels@.filter(
            |t: ClientEntry| t.enabled,
        ),
{
    assert(named::switched_on::<HostEntry>() =~= (|t: HostEntry| t.enabled));
    assert(named::switched_on::<ClientEntry>() =~= (|t: ClientEntry| t.enabled));
}

/// A host tunnel is started as it is configured, and comes before any client tunnel; only where its
/// secret key is none does the program end instead.
pub proof fn lemma_host_is_started_as_configured(run: RunAll, say: Seq<char>, action: RunAction)
    requires
        run.hosts_up < run.hosts@.len(),
        run.proceeds(say, action),
    ensures
        say.len() == 0,
        ({
            let t = run.hosts@[run.hosts_up as int];
            match action {
                RunAction::StartHost(b) => {
                    &&& b.secret matches Some(k) && key::hex_result(t.secret_key@) == Ok::<
                        Seq<u8>,
                        HexError,
                    >(k@)
                    &&& b.forward_to == Some(t.local)
                    &&& b.protocol == Some(t.protocol)
                    &&& b.name@ == t.name@
                    &&& b.relay == RelayMode::Default
                    &&& b.discovery
                    &&& b.bind_v4 is None
                },
                RunAction::Exit(Err(_)) => !(key::hex_result(t.secret_key@) matches Ok(bytes)
                    && bytes.len() == 32),
                _ => false,
            }
        }),
{
}

/// Once all host tunnels are up, a client tunnel is started as it is configured, with the policy
/// that was asked for; only where its key is none does the program end instead.
pub proof fn lemma_client_is_started_as_configured(run: RunAll, say: Seq<char>, action: RunAction)
    requires
        run.hosts_up == run.hosts@.len(),
        run.clients_up < run.clients@.len(),
        run.proceeds(say, action),
    ensures
        say.len() == 0,
        ({
            let t = run.clients@[run.clients_up as int];
            match action {
                RunAction::StartClient(b) => {
                    &&& b.host matches Some(HostTarget::Key(k)) && k.wf() && key::hex_result(
                        t.host_key@,
                    ) == Ok::<Seq<u8>, HexError>(k@)
                    &&& b.bind == Some(t.local)
                    &&& b.protocol == Some(t.protocol)
                    &&& b.name@ == t.name@
                    &&& b.relay == RelayMode::Default
                    &&& b.discovery
                    &&& run.reconnect is Some ==> b.reconnect == run.reconnect->0
                    &&& run.reconnect is None ==> b.reconnect.max_attempts is None
                        && b.reconnect.initial_backoff.nanos == 1_000_000_000
                        && b.reconnect.max_backoff.nanos == 60_000_000_000
                },
                RunAction::Exit(Err(_)) => !(key::hex_result(t.host_key@) matches Ok(bytes)
                    && bytes.len() == 32 && key::public_key_read(bytes) is Ok),
                _ => false,
            }
        }),
{
}

/// The program waits for the user exactly where every tunnel is up.
pub proof fn lemma_waits_when_all_are_up(run: RunAll, say: Seq<char>, action: RunAction)
    requires
        run.wf(),
        run.proceeds(say, action),
    ensures
        action is Wait <==> run.hosts_up == run.hosts@.len() && run.clients_up
            == run.clients@.len(),
        action is Wait ==> say == "Press Ctrl-C to stop.\n"@,
        !(action is ShutDown),
{
}

/// What is printed for a tunnel that is up names the tunnel that was being started, where it is and,
/// for a host, the key by which peers reach it.
pub proof fn lemma_up_words_fit(run: RunAll)
    requires
        run.wf(),
        run.hosts_up < run.hosts@.len() || run.clients_up < run.clients@.len(),
    ensures
        run.up_words() == if run.hosts_up < run.hosts@.len() {
            let t = run.hosts@[run.hosts_up as int];
            "host \""@ + t.name@ + "\" listening for peers on "@ + t.local.display() + "/"@ + (
            match t.protocol {
                TunnelProtocol::Tcp => "tcp"@,
                TunnelProtocol::Udp => "udp"@,
            }) + " (public key "@ + t.spec_public_key_hex() + ")\n"@
        } else {
            let t = run.clients@[run.clients_up as int];
            "client \""@ + t.name@ + "\" bound to "@ + t.local.display() + "/"@ + (
            match t.protocol {
                TunnelProtocol::Tcp => "tcp"@,
                TunnelProtocol::Udp => "udp"@,
            }) + "\n"@
        },
{
    if run.hosts_up < run.hosts@.len() {
        let t = run.hosts@[run.hosts_up as int];
        assert(run.up_words() =~= "host \""@ + t.name@ + "\" listening for peers on "@
            + t.local.display() + "/"@ + t.protocol.display() + " (public key "@
            + t.spec_public_key_hex() + ")\n"@);
    } else {
        let t = run.clients@[run.clients_up as int];
        assert(run.up_words() =~= "client \""@ + t.name@ + "\" bound to "@ + t.local.display()
            + "/"@ + t.protocol.display() + "\n"@);
    }
}

/// The public key that is shown for a host tunnel belongs to its secret key, wherever it has one.
pub proof fn lemma_shown_key_belongs(t: HostEntry, secret: Seq<u8>)
    requires
        key::hex_result(t.secret_key@) == Ok::<Seq<u8>, HexError>(secret),
        secret.len() == 32,
    ensures
        key::hex_result(t.spec_public_key_hex()) == Ok::<Seq<u8>, HexError>(
            key::public_key_of(secret),
        ),
{
    key::lemma_hex_roundtrip(key::public_key_of(secret));
}

/// Tunnels in order are in the order of their names.
pub proof fn lemma_order_is_by_name(cfg: Config)
    ensures
        named::is_sorted(cfg.host_tunnels@) <==> forall|i: int, j: int|
            0 <= i <= j < cfg.host_tunnels@.len() ==> text::text_le(
                (#[trigger] cfg.host_tunnels@[i]).name@,
                (#[trigger] cfg.host_tunnels@[j]).name@,
            ),
        named::is_sorted(cfg.client_tunnels@) <==> forall|i: int, j: int|
            0 <= i <= j < cfg.client_tunnels@.len() ==> text::text_le(
                (#[trigger] cfg.client_tunnels@[i]).name@,
                (#[trigger] cfg.client_tunnels@[j]).name@,
            ),
{
    let hosts = cfg.host_tunnels@;
    let clients = cfg.client_tunnels@;
    if named::is_sorted(hosts) {
        assert forall|i: int, j: int| 0 <= i <= j < hosts.len() implies text::text_le(
            (#[trigger] hosts[i]).name@,
            (#[trigger] hosts[j]).name@,
        ) by {
            assert(text::text_le(hosts[i].spec_name(), hosts[j].spec_name()));
        }
    }
    if named::is_sorted(clients) {
        assert forall|i: int, j: int| 0 <= i <= j < clients.len() implies text::text_le(
            (#[trigger] clients[i]).name@,
            (#[trigger] clients[j]).name@,
        ) by {
            assert(text::text_le(clients[i].spec_name(), clients[j].spec_name()));
        }
    }
}

/// A number in decimal is read as that number.
pub proof fn lemma_decimal_is_read(n: u64)
    ensures
        run::number_read(text::decimal(n as nat)) == Some(n),
{
    let s = text::decimal(n as nat);
    text::lemma_numeral_stands_for_number(n as nat, 10);
    assert(s[0] != '+') by {
        assert('0' <= s[0] <= '9' || 'a' <= s[0] <= 'f');
    }
    assert(run::all_digits(s)) by {
        assert forall|i: int| 0 <= i < s.len() implies '0' <= #[trigger] s[i] <= '9' by {
            assert(text::digit_number(s[i]) < 10);
        }
    }
    lemma_same_value(s);
}

proof fn lemma_same_value(s: Seq<char>)
    requires
        run::all_digits(s),
    ensures
        run::digits_value(s) == text::number_of(s, 10),
    decreases s.len(),
{
    if s.len() > 0 {
        lemma_same_value(s.drop_last());
        assert('0' <= s.last() <= '9');
    }
}

/// A client tunnel that was added is run, as it was asked for, when all tunnels are run then.
pub proof fn lemma_add_client_then_run(
    cfg: Config,
    host_key: String,
    local: SocketAddr,
    protocol: TunnelProtocol,
    name: String,
    new: Config,
    output: String,
    reconnect: Option<ReconnectPolicy>,
    run: RunAll,
)
    requires
        call_ensures(
            run::add_client,
            (cfg, host_key, local, protocol, name),
            Ok::<(Config, String), CliError>((new, output)),
        ),
        call_ensures(RunAll::new, (new, reconnect), run),
    ensures
        exists|i: int|
            0 <= i < run.clients@.len() && (#[trigger] run.clients@[i]).name@ == name@
                && run.clients@[i].local == local && run.clients@[i].protocol == protocol
                && run.clients@[i].host_key@ == host_key@ && run.clients@[i].enabled,
        new.host_tunnels@ == cfg.host_tunnels@,
        new.client_tunnels@.len() == cfg.client_tunnels@.len() + 1,
        forall|t: ClientEntry| #[trigger]
            cfg.client_tunnels@.contains(t) ==> new.client_tunnels@.contains(t),
{
    lemma_added_client_is_run(cfg, host_key@, local, protocol, name@, new, output);
    let e = choose|e: ClientEntry| #[trigger]
        named::enabled_only(new.client_tunnels@).contains(e) && e.name@ == name@ && e.local == local
            && e.protocol == protocol && e.host_key@ == host_key@ && e.enabled
            && new.client_tunnels@.to_multiset() == cfg.client_tunnels@.to_multiset().insert(e);
    assert(run.clients@.contains(e));
    let i = choose|i: int| 0 <= i < run.clients@.len() && run.clients@[i] == e;
    assert(run.clients@[i].name@ == name@);
    broadcast use vstd::seq_lib::group_to_multiset_ensures;

    assert(new.client_tunnels@.to_multiset().len() == cfg.client_tunnels@.to_multiset().len() + 1);
    assert forall|t: ClientEntry| #[trigger] cfg.client_tunnels@.contains(t) implies
        new.client_tunnels@.contains(t) by {
        assert(cfg.client_tunnels@.to_multiset().count(t) > 0);
        assert(new.client_tunnels@.to_multiset().count(t) > 0);
    }
}

/// A host tunnel that was added is run, as it was asked for and with its secret key, when all tunnels
/// are run then.
pub proof fn lemma_add_host_then_run(
    cfg: Config,
    local: SocketAddr,
    protocol: TunnelProtocol,
    name: String,
    secret: SecretKey,
    r: (Config, String),
    reconnect: Option<ReconnectPolicy>,
    run: RunAll,
)
    requires
        call_ensures(run::host_added, (cfg, local, protocol, name, secret), r),
        call_ensures(RunAll::new, (r.0, reconnect), run),
    ensures
        exists|i: int|
            0 <= i < run.hosts@.len() && (#[trigger] run.hosts@[i]).name@ == name@
                && run.hosts@[i].local == local && run.hosts@[i].protocol == protocol
                && key::hex_result(run.hosts@[i].secret_key@) == Ok::<Seq<u8>, HexError>(secret@)
                && run.hosts@[i].enabled,
        r.0.client_tunnels@ == cfg.client_tunnels@,
        r.0.host_tunnels@.len() == cfg.host_tunnels@.len() + 1,
        forall|t: HostEntry| #[trigger]
            cfg.host_tunnels@.contains(t) ==> r.0.host_tunnels@.contains(t),
{
    let new = r.0;
    lemma_added_host_is_run(cfg, local, protocol, name@, secret, new, r.1@);
    let e = choose|e: HostEntry| #[trigger]
        named::enabled_only(new.host_tunnels@).contains(e) && e.name@ == name@ && e.local == local
            && e.protocol == protocol && key::hex_result(e.secret_key@) == Ok::<Seq<u8>, HexError>(
            secret@,
        ) && e.enabled && new.host_tunnels@.to_multiset()
            == cfg.host_tunnels@.to_multiset().insert(e);
    assert(run.hosts@.contains(e));
    let i = choose|i: int| 0 <= i < run.hosts@.len() && run.hosts@[i] == e;
    assert(run.hosts@[i].name@ == name@);
    broadcast use vstd::seq_lib::group_to_multiset_ensures;

    assert(new.host_tunnels@.to_multiset().len() == cfg.host_tunnels@.to_multiset().len() + 1);
    assert forall|t: HostEntry| #[trigger] cfg.host_tunnels@.contains(t) implies
        new.host_tunnels@.contains(t) by {
        assert(cfg.host_tunnels@.to_multiset().count(t) > 0);
        assert(new.host_tunnels@.to_multiset().count(t) > 0);
    }
}

/// The command that is printed for a new host tunnel can be followed on the other side: its key is
/// accepted there, under a free name and at a free address, and its word is the protocol's.
pub proof fn lemma_printed_command_is_followed(
    cfg: Config,
    local: SocketAddr,
    protocol: TunnelProtocol,
    name: String,
    secret: SecretKey,
    r: (Config, String),
)
    requires
        call_ensures(run::host_added, (cfg, local, protocol, name, secret), r),
    ensures
        exists|hex: Seq<char>, word: Seq<char>|
            {
                &&& ("  lantun add-client "@ + hex + " <local> "@ + word
                    + " <name>\n"@).is_suffix_of(r.1@)
                &&& key::hex_result(hex) == Ok::<Seq<u8>, HexError>(key::public_key_of(secret@))
                &&& word == match protocol {
                    TunnelProtocol::Tcp => "tcp"@,
                    TunnelProtocol::Udp => "udp"@,
                }
                &&& forall|p: Result<TunnelProtocol, IoError>| #[trigger]
                    TunnelProtocol::named_by(word, p) ==> p == Ok::<TunnelProtocol, IoError>(
                        protocol,
                    )
            },
{
    lemma_printed_command_fits(cfg, local, protocol, name@, secret, r.0, r.1@);
    let word = match protocol {
        TunnelProtocol::Tcp => "tcp"@,
        TunnelProtocol::Udp => "udp"@,
    };
    let hex = key::hex_text(key::public_key_of(secret@));
    let last = "  lantun add-client "@ + hex + " <local> "@ + word + " <name>\n"@;
    let first = "Created host tunnel \""@ + name@ + "\" on "@ + local.display() + "/"@ + word
        + "\nPublic key: "@ + hex + "\nPeers can connect with:\n"@;
    assert(r.1@ =~= first + last);
    assert(last.is_suffix_of(r.1@));
    assert(word == protocol.display());
}

/// A host tunnel is refused exactly where some tunnel has its name, or a host tunnel has both its
/// address and its protocol.
pub proof fn lemma_host_refused(
    cfg: Config,
    local: SocketAddr,
    protocol: TunnelProtocol,
    name: &str,
    r: Option<CliError>,
)
    requires
        call_ensures(run::host_refused, (&cfg, local, protocol, name), r),
    ensures
        r is Some <==> {
            ||| exists|i: int|
                0 <= i < cfg.host_tunnels@.len() && (#[trigger] cfg.host_tunnels@[i]).name@ == name@
            ||| exists|i: int|
                0 <= i < cfg.client_tunnels@.len() && (#[trigger] cfg.client_tunnels@[i]).name@
                    == name@
            ||| exists|i: int|
                0 <= i < cfg.host_tunnels@.len() && (#[trigger] cfg.host_tunnels@[i]).local == local
                    && cfg.host_tunnels@[i].protocol == protocol
        },
{
}

/// Removing a name succeeds exactly where some tunnel has it, and keeps the tunnels of all other
/// names, in their order, and no more.
pub proof fn lemma_remove(
    cfg: Config,
    name: &str,
    r: Result<(Config, String), CliError>,
)
    requires
        call_ensures(run::remove, (cfg, name), r),
    ensures
        r is Ok <==> {
            ||| exists|i: int|
                0 <= i < cfg.host_tunnels@.len() && (#[trigger] cfg.host_tunnels@[i]).name@ == name@
            ||| exists|i: int|
                0 <= i < cfg.client_tunnels@.len() && (#[trigger] cfg.client_tunnels@[i]).name@
                    == name@
        },
        r matches Ok((new, output)) ==> {
            &&& new.host_tunnels@ == cfg.host_tunnels@.filter(|t: HostEntry| t.name@ != name@)
            &&& new.client_tunnels@ == cfg.client_tunnels@.filter(|t: ClientEntry| t.name@ != name@)
            &&& output@ == "Removed \""@ + name@ + "\"\n"@
        },
        r matches Err(e) ==> e.message@ == "no tunnel named \""@ + name@ + "\""@,
{
    cfg.lemma_has_name(name@);
    assert(named::not_called::<HostEntry>(name@) =~= (|t: HostEntry| t.name@ != name@));
    assert(named::not_called::<ClientEntry>(name@) =~= (|t: ClientEntry| t.name@ != name@));
}

/// A tunnel that is disabled is not run, one that is enabled is, and no other tunnel is touched.
pub proof fn lemma_set_enabled_then_run(
    cfg: Config,
    name: &str,
    on: bool,
    r: Result<(Config, String), CliError>,
    reconnect: Option<ReconnectPolicy>,
    run: RunAll,
)
    requires
        call_ensures(run::set_enabled, (cfg, name, on), r),
        r matches Ok((new, output)) && call_ensures(RunAll::new, (new, reconnect), run),
    ensures
        !on ==> forall|i: int|
            0 <= i < run.hosts@.len() ==> (#[trigger] run.hosts@[i]).name@ != name@,
        !on ==> forall|i: int|
            0 <= i < run.clients@.len() ==> (#[trigger] run.clients@[i]).name@ != name@,
        forall|t: HostEntry| #[trigger]
            cfg.host_tunnels@.contains(t) && t.name@ == name@ && on ==> run.hosts@.contains(
                HostEntry { enabled: true, ..t },
            ),
        forall|t: ClientEntry| #[trigger]
            cfg.client_tunnels@.contains(t) && t.name@ == name@ && on ==> run.clients@.contains(
                ClientEntry { enabled: true, ..t },
            ),
        forall|t: HostEntry| #[trigger]
            cfg.host_tunnels@.contains(t) && t.name@ != name@ ==> (run.hosts@.contains(t)
                <==> t.enabled),
        forall|t: ClientEntry| #[trigger]
            cfg.client_tunnels@.contains(t) && t.name@ != name@ ==> (run.clients@.contains(t)
                <==> t.enabled),
        r->Ok_0.1@ == name@ + (if on {
            ": enabled\n"@
        } else {
            ": disabled\n"@
        }),
{
    let new = r->Ok_0.0;
    run::lemma_last_switch_counts(cfg, name@, on, on);
    let hs = cfg.host_tunnels@;
    let cs = cfg.client_tunnels@;
    let hn = new.host_tunnels@;
    let cn = new.client_tunnels@;
    assert(hn.len() == hs.len() && cn.len() == cs.len());
    assert forall|i: int| 0 <= i < run.hosts@.len() implies hn.contains(#[trigger] run.hosts@[i])
        && run.hosts@[i].enabled by {
        run_all::lemma_disabled_is_not_started(hn, i);
    }
    assert forall|i: int| 0 <= i < run.clients@.len() implies cn.contains(
        #[trigger] run.clients@[i],
    ) && run.clients@[i].enabled by {
        run_all::lemma_disabled_is_not_started(cn, i);
    }
    if !on {
        assert forall|i: int| 0 <= i < run.hosts@.len() implies (#[trigger] run.hosts@[i]).name@
            != name@ by {
            let j = choose|j: int| 0 <= j < hn.len() && hn[j] == run.hosts@[i];
            assert(hn[j] == named::with_enabled(hs, name@, on)[j]);
        }
        assert forall|i: int| 0 <= i < run.clients@.len() implies (#[trigger] run.clients@[i]).name@
            != name@ by {
            let j = choose|j: int| 0 <= j < cn.len() && cn[j] == run.clients@[i];
            assert(cn[j] == named::with_enabled(cs, name@, on)[j]);
        }
    }
    assert forall|t: HostEntry| #[trigger] hs.contains(t) && t.name@ == name@ && on implies
        run.hosts@.contains(HostEntry { enabled: true, ..t }) by {
        let j = choose|j: int| 0 <= j < hs.len() && hs[j] == t;
        assert(hn[j] == named::with_enabled(hs, name@, on)[j]);
        run_all::lemma_enabled_is_started(hn, j);
    }
    assert forall|t: ClientEntry| #[trigger] cs.contains(t) && t.name@ == name@ && on implies
        run.clients@.contains(ClientEntry { enabled: true, ..t }) by {
        let j = choose|j: int| 0 <= j < cs.len() && cs[j] == t;
        assert(cn[j] == named::with_enabled(cs, name@, on)[j]);
        run_all::lemma_enabled_is_started(cn, j);
    }
    assert forall|t: HostEntry| #[trigger] hs.contains(t) && t.name@ != name@ implies (
    run.hosts@.contains(t) <==> t.enabled) by {
        let j = choose|j: int| 0 <= j < hs.len() && hs[j] == t;
        assert(hn[j] == named::with_enabled(hs, name@, on)[j]);
        assert(hn[j] == t);
        if t.enabled {
            run_all::lemma_enabled_is_started(hn, j);
        } else if run.hosts@.contains(t) {
            let k = choose|k: int| 0 <= k < run.hosts@.len() && run.hosts@[k] == t;
            assert(run.hosts@[k].enabled);
        }
    }
    assert forall|t: ClientEntry| #[trigger] cs.contains(t) && t.name@ != name@ implies (
    run.clients@.contains(t) <==> t.enabled) by {
        let j = choose|j: int| 0 <= j < cs.len() && cs[j] == t;
        assert(cn[j] == named::with_enabled(cs, name@, on)[j]);
        assert(cn[j] == t);
        if t.enabled {
            run_all::lemma_enabled_is_started(cn, j);
        } else if run.clients@.contains(t) {
            let k = choose|k: int| 0 <= k < run.clients@.len() && run.clients@[k] == t;
            assert(run.clients@[k].enabled);
        }
    }
    reveal_strlit(": ");
    reveal_strlit("enabled");
    reveal_strlit("disabled");
    reveal_strlit("\n");
    reveal_strlit(": enabled\n");
    reveal_strlit(": disabled\n");
    assert(r->Ok_0.1@ =~= name@ + (if on {
        ": enabled\n"@
    } else {
        ": disabled\n"@
    }));
}

proof fn lemma_line_is_among_lines<T>(s: Seq<T>, i: int, line: spec_fn(T) -> Seq<char>)
    requires
        0 <= i < s.len(),
    ensures
        ({
            let at = run::lines(s.take(i), line).len() as int;
            let end = at + line(s[i]).len();
            &&& end <= run::lines(s, line).len()
            &&& run::lines(s, line).subrange(at, end) == line(s[i])
        }),
{
    let a = s.take(i);
    let b = s.skip(i + 1);
    assert(s =~= a + seq![s[i]] + b);
    lemma_lines_in_order(a + seq![s[i]], b, s[i], line);
    lemma_lines_in_order(a, seq![s[i]], s[i], line);
    let at = run::lines(a, line).len() as int;
    let end = at + line(s[i]).len();
    assert(run::lines(s, line) == run::lines(a, line) + line(s[i]) + run::lines(b, line));
    assert(run::lines(s, line).subrange(at, end) =~= line(s[i]));
}

/// The list shows each host tunnel: somewhere in it stands its line, with the mark of the tunnel,
/// its name, its address, its protocol and its key.
pub proof fn lemma_list_shows_host(cfg: Config, i: int, line: Seq<char>, r: String)
    requires
        call_ensures(run::list, (&cfg,), r),
        0 <= i < cfg.host_tunnels@.len(),
        line == "  ["@ + (if cfg.host_tunnels@[i].enabled {
            " "@
        } else {
            "d"@
        }) + "] "@ + cfg.host_tunnels@[i].name@ + ": "@ + cfg.host_tunnels@[i].local.display()
            + " ("@ + (match cfg.host_tunnels@[i].protocol {
            TunnelProtocol::Tcp => "tcp"@,
            TunnelProtocol::Udp => "udp"@,
        }) + ") key="@ + cfg.host_tunnels@[i].spec_public_key_hex() + "\n"@,
    ensures
        exists|at: int|
            0 <= at && at + line.len() <= r@.len() && #[trigger] r@.subrange(at, at + line.len())
                == line,
{
    let f = |t: HostEntry| run::host_line(t);
    let of_client = |t: ClientEntry| run::client_line(t);
    assert(f(cfg.host_tunnels@[i]) == line);
    lemma_line_is_among_lines(cfg.host_tunnels@, i, f);
    let before = "Host tunnels:\n"@;
    let after = run::section("\nClient tunnels:\n"@, cfg.client_tunnels@, of_client);
    let all = run::lines(cfg.host_tunnels@, f);
    assert(r@ =~= before + all + after);
    let p = run::lines(cfg.host_tunnels@.take(i), f).len() as int;
    let at: int = before.len() + p;
    assert(r@.subrange(at, at + line.len()) =~= all.subrange(p, p + line.len()));
}

/// The list shows each client tunnel: somewhere in it stands its line, with the mark of the tunnel,
/// its name, its address, its protocol and the key of its host.
pub proof fn lemma_list_shows_client(cfg: Config, i: int, line: Seq<char>, r: String)
    requires
        call_ensures(run::list, (&cfg,), r),
        0 <= i < cfg.client_tunnels@.len(),
        line == "  ["@ + (if cfg.client_tunnels@[i].enabled {
            " "@
        } else {
            "d"@
        }) + "] "@ + cfg.client_tunnels@[i].name@ + ": "@ + cfg.client_tunnels@[i].local.display()
            + " ("@ + (match cfg.client_tunnels@[i].protocol {
            TunnelProtocol::Tcp => "tcp"@,
            TunnelProtocol::Udp => "udp"@,
        }) + ") -> "@ + cfg.client_tunnels@[i].host_key@ + "\n"@,
    ensures
        exists|at: int|
            0 <= at && at + line.len() <= r@.len() && #[trigger] r@.subrange(at, at + line.len())
                == line,
{
    let f = |t: ClientEntry| run::client_line(t);
    let of_host = |t: HostEntry| run::host_line(t);
    assert(f(cfg.client_tunnels@[i]) == line);
    lemma_line_is_among_lines(cfg.client_tunnels@, i, f);
    let before = run::section("Host tunnels:\n"@, cfg.host_tunnels@, of_host)
        + "\nClient tunnels:\n"@;
    let all = run::lines(cfg.client_tunnels@, f);
    assert(r@ =~= before + all);
    let p = run::lines(cfg.client_tunnels@.take(i), f).len() as int;
    let at: int = before.len() + p;
    assert(r@.subrange(at, at + line.len()) =~= all.subrange(p, p + line.len()));
}

/// A key that was written in hexadecimal is decoded to that key.
pub proof fn lemma_written_keys_are_decoded(
    secret: SecretKey,
    public: PublicKey,
    s: &str,
    p: &str,
    r: Result<SecretKey, CliError>,
    q: Result<PublicKey, CliError>,
)
    requires
        public.wf(),
        s@ == key::hex_text(secret@),
        p@ == key::hex_text(public@),
        call_ensures(run::decode_secret_key, (s,), r),
        call_ensures(run::decode_public_key, (p,), q),
    ensures
        r matches Ok(k) && k@ == secret@,
        q matches Ok(k) && k@ == public@,
{
    key::lemma_hex_roundtrip(secret@);
    key::lemma_hex_roundtrip(public@);
    secret.lemma_len();
    public.lemma_len();
}

/// Pauses that are set in decimal are those milliseconds. Without a setting for the longest pause it
/// is a minute, or the initial one where that is longer; without one for the initial pause it is a
/// second; and without either there is no policy. Retries are never limited.
pub proof fn lemma_settings_make_the_policy(
    initial: Option<String>,
    max: Option<String>,
    n: u64,
    m: u64,
    r: Option<ReconnectPolicy>,
)
    requires
        call_ensures(run::reconnect_policy_from_env, (initial, max), r),
        initial matches Some(s) ==> s@ == text::decimal(n as nat),
        max matches Some(s) ==> s@ == text::decimal(m as nat),
    ensures
        r is None <==> initial is None && max is None,
        r matches Some(p) ==> {
            &&& p.max_attempts is None
            &&& initial is Some ==> p.initial_backoff.nanos == n * 1_000_000
            &&& initial is None ==> p.initial_backoff.nanos == 1_000_000_000
            &&& max is Some ==> p.max_backoff.nanos == m * 1_000_000
            &&& max is None ==> p.max_backoff.nanos >= p.initial_backoff.nanos
                && p.max_backoff.nanos >= 60_000_000_000 && (p.max_backoff == p.initial_backoff
                || p.max_backoff.nanos == 60_000_000_000)
        },
{
    lemma_decimal_is_read(n);
    lemma_decimal_is_read(m);
}

/// A setting that is no number is as good as none.
pub proof fn lemma_bad_settings_do_not_count(
    initial: Option<String>,
    max: Option<String>,
    r: Option<ReconnectPolicy>,
    q: Option<ReconnectPolicy>,
)
    requires
        call_ensures(run::reconnect_policy_from_env, (initial, max), r),
        call_ensures(run::reconnect_policy_from_env, (None::<String>, max), q),
        initial matches Some(s) && s@.len() > 0 && !('0' <= s@.last() <= '9'),
    ensures
        r == q,
{
    let s = initial->0@;
    let digits = if s[0] == '+' {
        s.skip(1)
    } else {
        s
    };
    if digits.len() > 0 && run::all_digits(digits) {
        assert(digits[digits.len() - 1] == s.last());
    }
    assert(run::number_read(s) is None);
}

/// The death of a host tunnel is told with its name.
pub proof fn lemma_death_is_told_with_the_name(name: Seq<char>)
    ensures
        run_all::died_words(name) == "host tunnel \""@ + name
            + "\" died unexpectedly — exiting..."@,
{
}

/// Where a host tunnel has no usable secret key, no public key is shown for it.
pub proof fn lemma_no_key_is_shown_without_secret(t: HostEntry)
    requires
        !(key::hex_result(t.secret_key@) matches Ok(b) && b.len() == 32),
    ensures
        t.spec_public_key_hex() == "<invalid>"@,
{
}

/// Whatever leads to it, a client tunnel that is started is the next one that is not up, as it is
/// configured.
pub proof fn lemma_run_starts_client_as_configured(
    run: &mut RunAll,
    event: RunEvent,
    step: RunStep,
    b: ClientTunnelBuilder,
)
    requires
        old(run).wf(),
        old(run).expects(event),
        call_ensures(RunAll::run_all, (run, event), step),
        step.action == RunAction::StartClient(b),
    ensures
        final(run).hosts_up == old(run).hosts@.len(),
        final(run).clients_up < old(run).clients@.len(),
        ({
            let t = old(run).clients@[final(run).clients_up as int];
            &&& b.protocol == Some(t.protocol)
            &&& b.bind == Some(t.local)
            &&& b.name@ == t.name@
            &&& b.relay == RelayMode::Default
            &&& b.discovery
            &&& b.host matches Some(HostTarget::Key(k)) && key::hex_result(t.host_key@) == Ok::<
                Seq<u8>,
                HexError,
            >(k@)
            &&& old(run).reconnect is Some ==> b.reconnect == old(run).reconnect->0
        }),
        final(run).phase is Starting,
        event is Begin || event is Started,
{
}

/// Whatever leads to it, a host tunnel that is started is the next one that is not up, as it is
/// configured.
pub proof fn lemma_run_starts_host_as_configured(
    run: &mut RunAll,
    event: RunEvent,
    step: RunStep,
    b: HostTunnelBuilder,
)
    requires
        old(run).wf(),
        old(run).expects(event),
        call_ensures(RunAll::run_all, (run, event), step),
        step.action == RunAction::StartHost(b),
    ensures
        final(run).hosts_up < old(run).hosts@.len(),
        ({
            let t = old(run).hosts@[final(run).hosts_up as int];
            &&& b.protocol == Some(t.protocol)
            &&& b.forward_to == Some(t.local)
            &&& b.name@ == t.name@
            &&& b.relay == RelayMode::Default
            &&& b.discovery
            &&& b.bind_v4 is None
            &&& b.secret matches Some(k) && key::hex_result(t.secret_key@) == Ok::<
                Seq<u8>,
                HexError,
            >(k@)
        }),
        final(run).phase is Starting,
        event is Begin || event is Started,
{
}

/// Each start brings one tunnel up, hosts first, and what is printed then begins with the words for
/// that tunnel.
pub proof fn lemma_run_counts_what_is_up(run: &mut RunAll, step: RunStep)
    requires
        old(run).wf(),
        old(run).phase is Starting,
        call_ensures(RunAll::run_all, (run, RunEvent::Started), step),
    ensures
        final(run).hosts_up + final(run).clients_up == old(run).hosts_up + old(run).clients_up + 1,
        final(run).hosts_up > old(run).hosts_up <==> old(run).hosts_up < old(run).hosts@.len(),
        final(run).hosts@ == old(run).hosts@,
        final(run).clients@ == old(run).clients@,
        old(run).up_words().is_prefix_of(step.say@),
        step.action is Wait <==> final(run).hosts_up == old(run).hosts@.len()
            && final(run).clients_up == old(run).clients@.len(),
{
    let say = choose|say: Seq<char>|
        step.say@ == old(run).up_words() + say && #[trigger] final(run).proceeds(say, step.action);
    let up = old(run).up_words();
    assert((up + say).subrange(0, up.len() as int) =~= up);
    lemma_waits_when_all_are_up(*final(run), say, step.action);
}

/// A running program ends by shutting all tunnels down. It then succeeds where the user asked for
/// it, and fails with the name of the host tunnel where one died.
pub proof fn lemma_run_ends_by_shutting_down(
    run: &mut RunAll,
    down: &mut RunAll,
    event: RunEvent,
    step: RunStep,
    last: RunStep,
)
    requires
        old(run).wf(),
        old(run).phase is Running,
        old(run).expects(event),
        event is Interrupt || event is HostDied,
        call_ensures(RunAll::run_all, (run, event), step),
        *old(down) == *final(run),
        call_ensures(RunAll::run_all, (down, RunEvent::Down), last),
    ensures
        step.action is ShutDown,
        event is Interrupt ==> last.action == RunAction::Exit(Ok(())),
        event matches RunEvent::HostDied(i) ==> (last.action matches RunAction::Exit(Err(e))
            && e.message@ == "host tunnel \""@ + old(run).hosts@[i as int].name@
            + "\" died unexpectedly — exiting..."@),
        final(down).phase is Done,
{
}

} // verus!
