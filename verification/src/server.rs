//! Bringing up the resident headless nvim: which steps follow one another, and when to give up.
//!
//! A free port may be taken by another process before nvim binds it, so nvim is tried on several
//! ports; and nvim needs a moment before it listens, so each port is dialled many times.

use vstd::prelude::*;

use crate::strings;
use crate::value;
use crate::value::Value;

verus! {

/// How many times one port is dialled.
pub const CONNECT_ATTEMPTS: u32 = 100;

/// The pause between two dials, in milliseconds.
pub const CONNECT_INTERVAL_MS: u64 = 20;

/// How many ports nvim is tried on.
pub const PORT_ATTEMPTS: u32 = 5;

/// How long the server on the other side may take to say that it is nvim, in milliseconds.
pub const HANDSHAKE_TIMEOUT_MS: u64 = 2000;

/// How the resident nvim is started.
#[derive(Clone, Debug)]
pub struct NvimConfig {
    pub nvim_exe: String,
    pub runtime_dir: String,
    pub appname: String,
}

/// The ports that were tried so far, with why nvim did not come up on them.
#[derive(Debug)]
pub struct Launch {
    failures: Vec<String>,
}

/// What became of a step of the launch.
#[derive(Debug)]
pub enum LaunchEvent {
    /// No free port could be picked, for this reason.
    NoPort(String),
    /// The process could not be started, for this reason. Another port would not help.
    NotStarted(String),
    /// nvim did not come up on this port, for this reason.
    NotAttached { port: u16, reason: String },
    /// nvim is up and knows the host.
    Attached,
}

/// What the launch does next.
#[derive(Debug, PartialEq, Eq)]
pub enum LaunchStep {
    /// Pick a free port and try to bring nvim up on it.
    TryPort,
    /// nvim is up.
    Ready,
    /// Report this.
    GiveUp(String),
}

/// How often a port was dialled in vain.
#[derive(Debug)]
pub struct Connect {
    refused: u32,
}

/// What follows a dial in vain.
#[derive(Debug, PartialEq, Eq)]
pub enum ConnectStep {
    /// Wait a moment and dial again.
    Retry,
    /// Report this.
    GiveUp(String),
}

/// How the handshake with the server on the port went.
#[derive(Debug)]
pub enum Handshake {
    /// nvim knows the host by this channel.
    Registered(i64),
    /// It failed, for this reason.
    Failed(String),
    /// No answer came in time.
    TimedOut,
}

/// The address that nvim listens on.
pub open spec fn address_text(port: u16) -> Seq<char> {
    "127.0.0.1:"@ + strings::decimal(port as nat)
}

/// How a failure is noted.
pub open spec fn failure_text(port: u16, reason: Seq<char>) -> Seq<char> {
    "port "@ + strings::decimal(port as nat) + ": "@ + reason
}

/// The texts with `; ` between them.
pub open spec fn joined(items: Seq<Seq<char>>) -> Seq<char>
    decreases items.len(),
{
    if items.len() == 0 {
        seq![]
    } else if items.len() == 1 {
        items[0]
    } else {
        joined(items.drop_last()) + "; "@ + items.last()
    }
}

/// The report that the start-up file of the bundle is not there.
pub open spec fn missing_report(init_lua: Seq<char>) -> Seq<char> {
    "bundled init.lua not found at "@ + init_lua
        + " (runtime_dir must contain init.lua and lua/anvi/)"@
}

/// The report that nvim came up on no port.
pub open spec fn launch_report(exe: Seq<char>, failures: Seq<Seq<char>>) -> Seq<char> {
    "nvim ("@ + exe + ") did not come up on "@ + strings::decimal(PORT_ATTEMPTS as nat)
        + " different ports ["@ + joined(failures)
        + "]; the nvim.stderr log records carry nvim's own message"@
}

/// The report that nobody answered the dials.
pub open spec fn connect_report(addr: Seq<char>, error: Seq<char>) -> Seq<char> {
    "could not connect to the nvim server at "@ + addr + " within 2s ("@ + strings::decimal(
        CONNECT_ATTEMPTS as nat,
    ) + " attempts); last error: "@ + error
}

/// The report that the server on the port is perhaps not nvim.
pub open spec fn silence_report(addr: Seq<char>) -> Seq<char> {
    "the server at "@ + addr
        + " did not answer nvim_get_api_info within 2s; something other than nvim may hold the port"@
}

/// The report that nvim ended before it answered.
pub open spec fn exit_report(status: Seq<char>) -> Seq<char> {
    "nvim exited before accepting a connection ("@ + status + ")"@
}

/// The report that nvim could not be started at all.
pub open spec fn spawn_report(exe: Seq<char>, appname: Seq<char>) -> Seq<char> {
    "failed to spawn nvim at "@ + exe + " (NVIM_APPNAME="@ + appname + ")"@
}

/// Whether another port is tried after so many ports that nvim did not come up on.
pub open spec fn another_port(failed: nat) -> bool {
    failed < PORT_ATTEMPTS
}

/// Whether the port is dialled again after so many dials that nobody answered.
pub open spec fn another_dial(refused: nat) -> bool {
    refused < CONNECT_ATTEMPTS
}

/// What a handshake comes to.
pub open spec fn handshake_end(handshake: Handshake, addr: Seq<char>) -> Result<i64, Seq<char>> {
    match handshake {
        Handshake::Registered(chan) => Ok(chan),
        Handshake::Failed(reason) => Err(reason@),
        Handshake::TimedOut => Err(silence_report(addr)),
    }
}

/// The channel by which nvim knows the host, from the answer to `nvim_get_api_info`.
pub open spec fn decode_channel(info: Seq<Value>) -> Result<int, Seq<char>> {
    if info.len() == 0 {
        Err("nvim_get_api_info returned an empty array"@)
    } else if info[0].number() matches Some(n) && i64::MIN <= n <= i64::MAX {
        Ok(info[0].number()->0)
    } else {
        Err("nvim_get_api_info's first element is not a channel id: "@ + value::shown(info[0]))
    }
}

/// The address that nvim listens on.
pub fn listen_address(port: u16) -> (addr: String)
    ensures
        addr@ == address_text(port),
{
    let mut addr = String::from_str("127.0.0.1:");
    strings::push_decimal(&mut addr, port as u64);
    addr
}

/// What nvim is started with: without a screen of its own, on one port, with the start-up file of the
/// bundle and nobody else's plugins.
pub open spec fn argument_texts(init_lua: Seq<char>, port: u16) -> Seq<Seq<char>> {
    seq!["--headless"@, "--listen"@, address_text(port), "-u"@, init_lua, "--noplugin"@]
}

/// The arguments that nvim is started with.
pub fn arguments(init_lua: &str, port: u16) -> (args: Vec<String>)
    ensures
        strings::texts(args@) == argument_texts(init_lua@, port),
{
    let mut args: Vec<String> = Vec::new();
    args.push(String::from_str("--headless"));
    args.push(String::from_str("--listen"));
    args.push(listen_address(port));
    args.push(String::from_str("-u"));
    args.push(init_lua.to_owned());
    args.push(String::from_str("--noplugin"));
    assert(strings::texts(args@) =~= argument_texts(init_lua@, port));
    args
}

/// The channel by which nvim knows the host, from the answer to `nvim_get_api_info`.
pub fn channel_id(info: &[Value]) -> (r: Result<i64, String>)
    ensures
        (match r {
            Ok(chan) => decode_channel(info@) == Ok::<int, Seq<char>>(chan as int),
            Err(e) => decode_channel(info@) == Err::<int, Seq<char>>(e@),
        }),
{
    if info.len() == 0 {
        return Err(String::from_str("nvim_get_api_info returned an empty array"));
    }
    match info[0].as_i64() {
        Some(chan) => Ok(chan),
        None => {
            let mut e = String::from_str(
                "nvim_get_api_info's first element is not a channel id: ",
            );
            value::push_shown(&mut e, &info[0]);
            Err(e)
        },
    }
}

/// Whether the port is nvim's. If the server does not answer in time, something else may hold the
/// port, and another port is worth a try.
pub fn conclude_handshake(handshake: Handshake, addr: &str) -> (r: Result<i64, String>)
    ensures
        (match r {
            Ok(chan) => handshake_end(handshake, addr@) == Ok::<i64, Seq<char>>(chan),
            Err(e) => handshake_end(handshake, addr@) == Err::<i64, Seq<char>>(e@),
        }),
{
    match handshake {
        Handshake::Registered(chan) => Ok(chan),
        Handshake::Failed(reason) => Err(reason),
        Handshake::TimedOut => {
            let mut e = String::from_str("the server at ");
            e.append(addr);
            e.append(
                " did not answer nvim_get_api_info within 2s; something other than nvim may hold the port",
            );
            Err(e)
        },
    }
}

impl NvimConfig {
    /// The report that nvim could not be started at all.
    pub fn spawn_failure(&self) -> (e: String)
        ensures
            e@ == spawn_report(self.nvim_exe@, self.appname@),
    {
        let mut e = String::from_str("failed to spawn nvim at ");
        e.append(self.nvim_exe.as_str());
        e.append(" (NVIM_APPNAME=");
        e.append(self.appname.as_str());
        e.append(")");
        e
    }
}

/// The texts with `; ` between them.
fn join(items: &Vec<String>) -> (out: String)
    ensures
        out@ == joined(strings::texts(items@)),
{
    let ghost all = strings::texts(items@);
    let mut out = String::new();
    let mut i: usize = 0;
    assert(all.take(0) =~= seq![]);
    assert(joined(all.take(0)) =~= out@);
    while i < items.len()
        invariant
            i <= items@.len(),
            all == strings::texts(items@),
            out@ == joined(all.take(i as int)),
        decreases items@.len() - i,
    {
        assert(all.take(i + 1).drop_last() =~= all.take(i as int));
        if i > 0 {
            out.append("; ");
        }
        out.append(items[i].as_str());
        assert(out@ =~= joined(all.take(i + 1)));
        i = i + 1;
    }
    assert(all.take(all.len() as int) =~= all);
    out
}

impl View for Launch {
    type V = Seq<Seq<char>>;

    closed spec fn view(&self) -> Seq<Seq<char>> {
        strings::texts(self.failures@)
    }
}

impl Launch {
    /// No port was tried yet.
    pub fn new() -> (launch: Launch)
        ensures
            launch@.len() == 0,
    {
        Launch { failures: Vec::new() }
    }

    /// The first step: without the start-up file of the bundle nothing is tried at all.
    pub fn start(&self, init_lua: &str, present: bool) -> (step: LaunchStep)
        ensures
            (match step {
                LaunchStep::TryPort => present,
                LaunchStep::Ready => false,
                LaunchStep::GiveUp(report) => !present && report@ == missing_report(init_lua@),
            }),
    {
        if present {
            LaunchStep::TryPort
        } else {
            let mut e = String::from_str("bundled init.lua not found at ");
            e.append(init_lua);
            e.append(" (runtime_dir must contain init.lua and lua/anvi/)");
            LaunchStep::GiveUp(e)
        }
    }

    /// What follows an event. Where nvim did not come up on a port, another port is tried, up to
    /// [`PORT_ATTEMPTS`] of them; then the report lists every port with its reason. What another
    /// port would not mend is reported at once.
    pub fn step(&mut self, exe: &str, event: LaunchEvent) -> (step: LaunchStep)
        ensures
            (match event {
                LaunchEvent::NoPort(reason) => {
                    &&& final(self)@ == old(self)@
                    &&& step matches LaunchStep::GiveUp(report) && report@ == reason@
                },
                LaunchEvent::NotStarted(reason) => {
                    &&& final(self)@ == old(self)@
                    &&& step matches LaunchStep::GiveUp(report) && report@ == reason@
                },
                LaunchEvent::Attached => {
                    &&& final(self)@ == old(self)@
                    &&& step == LaunchStep::Ready
                },
                LaunchEvent::NotAttached { port, reason } => {
                    &&& final(self)@ == old(self)@.push(failure_text(port, reason@))
                    &&& match step {
                        LaunchStep::TryPort => another_port(final(self)@.len()),
                        LaunchStep::Ready => false,
                        LaunchStep::GiveUp(report) => !another_port(final(self)@.len()) && report@
                            == launch_report(exe@, final(self)@),
                    }
                },
            }),
    {
        let (port, reason) = match event {
            LaunchEvent::NoPort(reason) => return LaunchStep::GiveUp(reason),
            LaunchEvent::NotStarted(reason) => return LaunchStep::GiveUp(reason),
            LaunchEvent::Attached => return LaunchStep::Ready,
            LaunchEvent::NotAttached { port, reason } => (port, reason),
        };
        let mut failure = String::from_str("port ");
        strings::push_decimal(&mut failure, port as u64);
        failure.append(": ");
        failure.append(reason.as_str());
        assert(failure@ =~= failure_text(port, reason@));
        let ghost was = self@;
        self.failures.push(failure);
        assert(self@ =~= was.push(failure_text(port, reason@)));
        if self.failures.len() < PORT_ATTEMPTS as usize {
            return LaunchStep::TryPort;
        }
        let mut report = String::from_str("nvim (");
        report.append(exe);
        report.append(") did not come up on ");
        strings::push_decimal(&mut report, PORT_ATTEMPTS as u64);
        report.append(" different ports [");
        let failures = join(&self.failures);
        report.append(failures.as_str());
        report.append("]; the nvim.stderr log records carry nvim's own message");
        assert(report@ =~= launch_report(exe@, self@));
        LaunchStep::GiveUp(report)
    }
}

impl View for Connect {
    type V = nat;

    closed spec fn view(&self) -> nat {
        self.refused as nat
    }
}

impl Connect {
    /// The port was not dialled yet.
    pub fn new() -> (connect: Connect)
        ensures
            connect@ == 0,
    {
        Connect { refused: 0 }
    }

    /// Before each dial: an nvim that has exited will not answer any more. `status` is how it
    /// exited, where it has.
    pub fn before_dial(&self, status: Option<&str>) -> (report: Option<String>)
        ensures
            (match status {
                None => report is None,
                Some(status) => report matches Some(e) && e@ == exit_report(status@),
            }),
    {
        match status {
            None => None,
            Some(status) => {
                let mut e = String::from_str("nvim exited before accepting a connection (");
                e.append(status);
                e.append(")");
                Some(e)
            },
        }
    }

    /// Nobody answered a dial. Dials are repeated up to [`CONNECT_ATTEMPTS`] times; then the last
    /// error is reported.
    pub fn on_refused(&mut self, addr: &str, error: &str) -> (step: ConnectStep)
        requires
            old(self)@ < CONNECT_ATTEMPTS,
        ensures
            final(self)@ == old(self)@ + 1,
            (match step {
                ConnectStep::Retry => another_dial(final(self)@),
                ConnectStep::GiveUp(report) => final(self)@ == CONNECT_ATTEMPTS && report@
                    == connect_report(addr@, error@),
            }),
    {
        self.refused = self.refused + 1;
        if self.refused < CONNECT_ATTEMPTS {
            return ConnectStep::Retry;
        }
        let mut report = String::from_str("could not connect to the nvim server at ");
        report.append(addr);
        report.append(" within 2s (");
        strings::push_decimal(&mut report, CONNECT_ATTEMPTS as u64);
        report.append(" attempts); last error: ");
        report.append(error);
        assert(report@ =~= connect_report(addr@, error@));
        ConnectStep::GiveUp(report)
    }
}

// ---- laws ----
/// nvim listens on the local machine only, on the port that it was given.
pub proof fn law_address(port: u16)
    ensures
        address_text(port) == "127.0.0.1:"@ + strings::decimal(port as nat),
{
}

/// nvim is started without a screen, at the address of the port, with the start-up file of the
/// bundle and without plugins.
pub proof fn law_arguments(init_lua: Seq<char>, port: u16)
    ensures
        ({
            let args = argument_texts(init_lua, port);
            &&& args.len() == 6
            &&& args[0] == "--headless"@
            &&& args[1] == "--listen"@
            &&& args[2] == "127.0.0.1:"@ + strings::decimal(port as nat)
            &&& args[3] == "-u"@
            &&& args[4] == init_lua
            &&& args[5] == "--noplugin"@
        }),
{
}

/// The channel is the first thing that nvim answers, where it is a number that a channel can have,
/// whatever follows it.
pub proof fn law_channel(first: Value, rest: Seq<Value>)
    ensures
        decode_channel(seq![]) == Err::<int, Seq<char>>(
            "nvim_get_api_info returned an empty array"@,
        ),
        (match first.number() {
            Some(n) => if -0x8000_0000_0000_0000 <= n <= 0x7fff_ffff_ffff_ffff {
                decode_channel(seq![first] + rest) == Ok::<int, Seq<char>>(n)
            } else {
                decode_channel(seq![first] + rest) is Err
            },
            None => decode_channel(seq![first] + rest) is Err,
        }),
        decode_channel(seq![first] + rest) matches Err(e) ==> e
            == "nvim_get_api_info's first element is not a channel id: "@ + value::shown(first),
{
    assert((seq![first] + rest)[0] == first);
}

/// Five ports are tried, and each of them is dialled for two seconds: a hundred times, twenty
/// milliseconds apart. An answer is waited for as long.
pub proof fn law_patience()
    ensures
        PORT_ATTEMPTS == 5,
        CONNECT_ATTEMPTS == 100,
        CONNECT_INTERVAL_MS == 20,
        CONNECT_ATTEMPTS * CONNECT_INTERVAL_MS == 2000,
        HANDSHAKE_TIMEOUT_MS == 2000,
        forall|failed: nat| #[trigger] another_port(failed) <==> failed <= 4,
        forall|refused: nat| #[trigger] another_dial(refused) <==> refused <= 99,
{
}

/// nvim is there once it has given its channel. Any failure is reported as it came, and silence as
/// silence.
pub proof fn law_handshake(chan: i64, reason: String, addr: Seq<char>)
    ensures
        handshake_end(Handshake::Registered(chan), addr) == Ok::<i64, Seq<char>>(chan),
        handshake_end(Handshake::Failed(reason), addr) == Err::<i64, Seq<char>>(reason@),
        handshake_end(Handshake::TimedOut, addr) == Err::<i64, Seq<char>>(silence_report(addr)),
{
}

/// The failures are listed from the first to the last, each with its port and its reason.
pub proof fn law_failures_in_order(first: Seq<char>, rest: Seq<Seq<char>>, port: u16)
    ensures
        failure_text(port, first) == "port "@ + strings::decimal(port as nat) + ": "@ + first,
        joined(seq![]) == Seq::<char>::empty(),
        joined(seq![first]) == first,
        rest.len() > 0 ==> joined(seq![first] + rest) == first + "; "@ + joined(rest),
    decreases rest.len(),
{
    let all = seq![first] + rest;
    if rest.len() == 1 {
        assert(all.drop_last() =~= seq![first]);
        reveal_with_fuel(joined, 3);
        assert(rest[0] == all.last());
    } else if rest.len() > 1 {
        law_failures_in_order(first, rest.drop_last(), port);
        assert(all.drop_last() =~= seq![first] + rest.drop_last());
        assert(joined(all) =~= first + "; "@ + joined(rest));
    }
}

/// The reports name what was missing, what did not come up, and who did not answer.
pub proof fn law_reports(exe: Seq<char>, failures: Seq<Seq<char>>, addr: Seq<char>, error: Seq<char>)
    ensures
        missing_report(exe) == "bundled init.lua not found at "@ + exe
            + " (runtime_dir must contain init.lua and lua/anvi/)"@,
        launch_report(exe, failures) == "nvim ("@ + exe + ") did not come up on "@ + seq!['5']
            + " different ports ["@ + joined(failures)
            + "]; the nvim.stderr log records carry nvim's own message"@,
        connect_report(addr, error) == "could not connect to the nvim server at "@ + addr
            + " within 2s ("@ + seq!['1', '0', '0'] + " attempts); last error: "@ + error,
        silence_report(addr) == "the server at "@ + addr
            + " did not answer nvim_get_api_info within 2s; something other than nvim may hold the port"@,
        exit_report(error) == "nvim exited before accepting a connection ("@ + error + ")"@,
        spawn_report(exe, error) == "failed to spawn nvim at "@ + exe + " (NVIM_APPNAME="@ + error
            + ")"@,
{
    reveal_with_fuel(strings::decimal, 4);
    assert(strings::decimal(5) =~= seq!['5']);
    assert(strings::decimal(100) =~= seq!['1', '0', '0']);
}

} // verus!
