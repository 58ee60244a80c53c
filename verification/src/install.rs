//! Per-user install on Windows: what a launch does, and what is registered.
//!
//! The release is a single executable. Started from anywhere else, it copies
//! itself to its own folder, registers itself and relaunches from there. Each
//! launch from that folder refreshes the registration. `--uninstall` undoes
//! it all and keeps the settings.

use crate::text::{characters, decimal, decimal_text, same};
use vstd::prelude::*;

verus! {

pub const DIR_NAME: &'static str = "AudioMirror";

pub const EXE_NAME: &'static str = "audio-mirror.exe";

pub const OLD_EXE_NAME: &'static str = "audio-mirror.old.exe";

/// The copy before it takes the executable's place.
pub const STAGED_EXE_NAME: &'static str = "audio-mirror.exe.new";

pub const PRODUCT: &'static str = "Audio Mirror";

pub const SHORTCUT_NAME: &'static str = "Audio Mirror.lnk";

pub const PUBLISHER: &'static str = "Alegzandr";

pub const WEB_PAGE: &'static str = "https://github.com/Alegzandr/audio-mirror";

pub const UNINSTALL_ARG: &'static str = "--uninstall";

pub const UNINSTALL_KEY: &'static str =
    "Software\\Microsoft\\Windows\\CurrentVersion\\Uninstall\\AudioMirror";

/// Values written by the autostart plugin, named after the product.
pub const RUN_KEY: &'static str = "Software\\Microsoft\\Windows\\CurrentVersion\\Run";

pub const STARTUP_APPROVED_KEY: &'static str =
    "Software\\Microsoft\\Windows\\CurrentVersion\\Explorer\\StartupApproved\\Run";

/// Web view data folder, named after the app identifier.
pub const WEBVIEW_DIR: &'static str = "io.github.alegzandr.audiomirror";

/// Whether a character is a decimal digit.
pub open spec fn is_digit(c: char) -> bool {
    '0' <= c && c <= '9'
}

/// The number that digits stand for.
pub open spec fn number(digits: Seq<char>) -> nat
    decreases digits.len(),
{
    if digits.len() == 0 {
        0
    } else {
        number(digits.drop_last()) * 10 + (digits.last() as int - '0' as int) as nat
    }
}

/// The digits behind a sign, if there is one.
pub open spec fn unsigned_part(s: Seq<char>) -> Seq<char> {
    if s.len() > 0 && s[0] == '+' {
        s.skip(1)
    } else {
        s
    }
}

/// The number that a part of a version stands for: zero where it is none, or
/// one of more than 64 bits.
pub open spec fn component(s: Seq<char>) -> u64 {
    let digits = unsigned_part(s);
    if digits.len() > 0 && (forall|i: int| 0 <= i < digits.len() ==> is_digit(
        #[trigger] digits[i],
    )) && number(digits) <= u64::MAX {
        number(digits) as u64
    } else {
        0
    }
}

/// The parts between the dots.
pub open spec fn pieces(s: Seq<char>) -> Seq<Seq<char>>
    decreases s.len(),
{
    if s.len() == 0 {
        seq![seq![]]
    } else {
        let front = pieces(s.drop_last());
        if s.last() == '.' {
            front.push(seq![])
        } else {
            front.drop_last().push(front.last().push(s.last()))
        }
    }
}

/// The numbers of a version.
pub open spec fn version_of(s: Seq<char>) -> Seq<u64> {
    pieces(s).map_values(|p: Seq<char>| component(p))
}

/// Whether the first version is newer: by the first part that differs, or by
/// having more of them.
pub open spec fn newer(a: Seq<u64>, b: Seq<u64>) -> bool
    decreases a.len(),
{
    if a.len() == 0 {
        false
    } else if b.len() == 0 {
        true
    } else {
        a[0] > b[0] || (a[0] == b[0] && newer(a.skip(1), b.skip(1)))
    }
}

proof fn lemma_number_grows(digits: Seq<char>, n: int)
    requires
        0 <= n <= digits.len(),
    ensures
        number(digits.take(n)) <= number(digits),
    decreases digits.len() - n,
{
    if n < digits.len() {
        lemma_number_grows(digits, n + 1);
        assert(digits.take(n + 1).drop_last() =~= digits.take(n));
    } else {
        assert(digits.take(n) =~= digits);
    }
}

/// The number that a part of a version stands for.
fn component_of(s: &Vec<char>) -> (r: u64)
    ensures
        r == component(s@),
{
    let start: usize = if s.len() > 0 && s[0] == '+' {
        1
    } else {
        0
    };
    let ghost digits = unsigned_part(s@);
    assert(digits =~= s@.skip(start as int));
    if s.len() == start {
        return 0;
    }
    let mut value: u64 = 0;
    let mut i: usize = start;
    assert(digits.take(0) =~= seq![]);
    while i < s.len()
        invariant
            start <= i <= s@.len(),
            start < s@.len(),
            digits == unsigned_part(s@),
            digits == s@.skip(start as int),
            value == number(digits.take(i - start)),
            forall|k: int| 0 <= k < i - start ==> is_digit(#[trigger] digits[k]),
        decreases s@.len() - i,
    {
        let c = s[i];
        let ghost at = i - start;
        assert(digits[at] == c);
        assert(digits.take(at + 1).drop_last() =~= digits.take(at));
        if !('0' <= c && c <= '9') {
            return 0;
        }
        let d: u64 = (c as u32 - '0' as u32) as u64;
        proof {
            lemma_number_grows(digits, at + 1);
        }
        match value.checked_mul(10) {
            None => {
                return 0;
            },
            Some(tens) => match tens.checked_add(d) {
                None => {
                    return 0;
                },
                Some(sum) => {
                    value = sum;
                },
            },
        }
        i += 1;
    }
    assert(digits.take(digits.len() as int) =~= digits);
    value
}

/// Reads a version: the numbers between its dots.
pub fn parse(version: &str) -> (r: Vec<u64>)
    ensures
        r@ == version_of(version@),
{
    let chars = characters(version);
    let mut numbers: Vec<u64> = Vec::new();
    let mut part: Vec<char> = Vec::new();
    let ghost mut done: Seq<Seq<char>> = seq![];
    let mut i: usize = 0;
    assert(chars@.take(0) =~= seq![]);
    assert(done.push(part@) =~= pieces(seq![]));
    while i < chars.len()
        invariant
            chars@ == version@,
            i <= chars@.len(),
            pieces(chars@.take(i as int)) =~= done.push(part@),
            numbers@ =~= done.map_values(|p: Seq<char>| component(p)),
        decreases chars@.len() - i,
    {
        let c = chars[i];
        let ghost read = chars@.take(i + 1);
        assert(read.drop_last() =~= chars@.take(i as int));
        assert(done.push(part@).drop_last() =~= done);
        if c == '.' {
            numbers.push(component_of(&part));
            proof {
                done = done.push(part@);
            }
            part = Vec::new();
        } else {
            part.push(c);
        }
        i += 1;
    }
    assert(chars@.take(i as int) =~= chars@);
    numbers.push(component_of(&part));
    assert(done.push(part@).map_values(|p: Seq<char>| component(p)) =~= done.map_values(
        |p: Seq<char>| component(p),
    ).push(component(part@)));
    numbers
}

/// Tells whether the first version is newer.
pub fn is_newer(a: &Vec<u64>, b: &Vec<u64>) -> (r: bool)
    ensures
        r == newer(a@, b@),
{
    let mut i: usize = 0;
    assert(a@.skip(0) =~= a@);
    assert(b@.skip(0) =~= b@);
    while i < a.len()
        invariant
            i <= a@.len(),
            i <= b@.len(),
            newer(a@, b@) == newer(a@.skip(i as int), b@.skip(i as int)),
        decreases a@.len() - i,
    {
        if i == b.len() {
            return true;
        }
        assert(a@.skip(i as int).skip(1) =~= a@.skip(i + 1));
        assert(b@.skip(i as int).skip(1) =~= b@.skip(i + 1));
        if a[i] > b[i] {
            return true;
        }
        if a[i] < b[i] {
            return false;
        }
        i += 1;
    }
    false
}

/// No version is newer than itself, of two different ones exactly one is
/// newer, and what is newer than a newer one is newer.
pub proof fn law_versions_are_ordered(a: Seq<u64>, b: Seq<u64>, c: Seq<u64>)
    ensures
        !newer(a, a),
        a == b || (newer(a, b) != newer(b, a)),
        newer(a, b) && newer(b, c) ==> newer(a, c),
    decreases a.len() + b.len() + c.len(),
{
    if a.len() > 0 {
        law_versions_are_ordered(
            a.skip(1),
            if b.len() > 0 {
                b.skip(1)
            } else {
                b
            },
            if c.len() > 0 {
                c.skip(1)
            } else {
                c
            },
        );
    }
    if a.len() > 0 && b.len() > 0 && a[0] == b[0] && a.skip(1) == b.skip(1) {
        assert(a =~= seq![a[0]] + a.skip(1));
        assert(b =~= seq![b[0]] + b.skip(1));
    }
    if a.len() == 0 && b.len() == 0 {
        assert(a =~= b);
    }
}

/// What a launch does before anything else.
#[derive(Debug, Clone, Copy, PartialEq, Eq, Structural)]
pub enum Prepare {
    /// Start the app.
    Run,
    /// Undo the install and leave.
    Uninstall,
    /// Refresh the registration and start the app.
    Refresh,
    /// Start the installed app and leave; put this copy in its place first
    /// where `copy`.
    Relaunch { copy: bool },
}

/// Where a launch finds itself.
#[derive(Debug, PartialEq, Eq)]
pub struct Launch {
    pub debug: bool,
    /// The install folder and this executable are known.
    pub located: bool,
    pub args: Vec<String>,
    /// This is the installed executable.
    pub in_place: bool,
    /// There is an installed executable.
    pub installed: bool,
    /// The version that is registered.
    pub installed_version: Option<String>,
    /// This executable's version.
    pub version: String,
}

impl Launch {
    pub open spec fn asks_to_uninstall(&self) -> bool {
        exists|i: int| 0 <= i < self.args@.len() && (#[trigger] self.args@[i])@ == UNINSTALL_ARG@
    }

    /// A newer version is installed.
    pub open spec fn keeps_installed(&self) -> bool {
        &&& self.installed
        &&& self.installed_version matches Some(v) && newer(
            version_of(v@),
            version_of(self.version@),
        )
    }

    /// What this launch does.
    pub open spec fn plan(&self) -> Prepare {
        if self.debug || !self.located {
            Prepare::Run
        } else if self.asks_to_uninstall() {
            Prepare::Uninstall
        } else if self.in_place {
            Prepare::Refresh
        } else {
            Prepare::Relaunch { copy: !self.keeps_installed() }
        }
    }

    /// Decides what this launch does.
    pub fn prepare(&self) -> (r: Prepare)
        ensures
            r == self.plan(),
    {
        if self.debug || !self.located {
            return Prepare::Run;
        }
        let mut i: usize = 0;
        while i < self.args.len()
            invariant
                i <= self.args@.len(),
                !self.debug,
                self.located,
                forall|k: int| 0 <= k < i ==> (#[trigger] self.args@[k])@ != UNINSTALL_ARG@,
            decreases self.args@.len() - i,
        {
            if same(self.args[i].as_str(), UNINSTALL_ARG) {
                assert(self.args@[i as int]@ == UNINSTALL_ARG@);
                return Prepare::Uninstall;
            }
            i += 1;
        }
        if self.in_place {
            return Prepare::Refresh;
        }
        let keep = match &self.installed_version {
            Some(v) => {
                let theirs = parse(v.as_str());
                let ours = parse(self.version.as_str());
                self.installed && is_newer(&theirs, &ours)
            },
            None => false,
        };
        Prepare::Relaunch { copy: !keep }
    }
}

/// Whether the app starts in this process. Where the copy or the launch of
/// the installed one failed, it is better to run from here than not at all.
pub fn goes_on(plan: Prepare, copied: bool, launched: bool) -> (r: bool)
    ensures
        r == (match plan {
            Prepare::Run | Prepare::Refresh => true,
            Prepare::Uninstall => false,
            Prepare::Relaunch { copy } => (copy && !copied) || !launched,
        }),
{
    match plan {
        Prepare::Run => true,
        Prepare::Refresh => true,
        Prepare::Uninstall => false,
        Prepare::Relaunch { copy } => (copy && !copied) || !launched,
    }
}

/// An older executable never takes the place of a newer install.
pub proof fn law_an_install_is_never_downgraded(launch: Launch)
    requires
        launch.installed,
        launch.installed_version matches Some(v) && newer(
            version_of(v@),
            version_of(launch.version@),
        ),
    ensures
        launch.plan() != (Prepare::Relaunch { copy: true }),
{
}

/// What a registry value holds.
#[derive(Debug, PartialEq, Eq)]
pub enum Data {
    Text(String),
    Number(u32),
}

/// A registry value.
#[derive(Debug, PartialEq, Eq)]
pub struct RegistryValue {
    pub name: String,
    pub data: Data,
}

impl RegistryValue {
    pub open spec fn is_text(&self, name: Seq<char>, text: Seq<char>) -> bool {
        self.name@ == name && (self.data matches Data::Text(t) && t@ == text)
    }

    pub open spec fn is_number(&self, name: Seq<char>, n: int) -> bool {
        self.name@ == name && (self.data matches Data::Number(m) && m == n)
    }
}

fn text_value(name: &str, text: &str) -> (r: RegistryValue)
    ensures
        r.is_text(name@, text@),
{
    RegistryValue { name: name.to_owned(), data: Data::Text(text.to_owned()) }
}

fn number_value(name: &str, n: u32) -> (r: RegistryValue)
    ensures
        r.is_number(name@, n as int),
{
    RegistryValue { name: name.to_owned(), data: Data::Number(n) }
}

/// The command that undoes the install.
pub open spec fn uninstall_command(exe: Seq<char>) -> Seq<char> {
    "\""@ + exe + "\" "@ + UNINSTALL_ARG@
}

/// The size of a file in kilobytes, in the 32 bits that are shown of it.
pub open spec fn shown_size(bytes: u64) -> int {
    bytes as int / 1024 % 0x1_0000_0000
}

/// What is registered of an install, in the order in which it is written.
/// Uninstalling asks nothing, so both commands are the same.
pub fn register(exe: &str, dir: &str, version: &str, size: u64) -> (r: Vec<RegistryValue>)
    ensures
        r@.len() == 11,
        r@[0].is_text("DisplayName"@, PRODUCT@),
        r@[1].is_text("DisplayVersion"@, version@),
        r@[2].is_text("DisplayIcon"@, exe@ + ",0"@),
        r@[3].is_text("Publisher"@, PUBLISHER@),
        r@[4].is_text("URLInfoAbout"@, WEB_PAGE@),
        r@[5].is_text("InstallLocation"@, dir@),
        r@[6].is_text("UninstallString"@, uninstall_command(exe@)),
        r@[7].is_text("QuietUninstallString"@, uninstall_command(exe@)),
        r@[8].is_number("NoModify"@, 1),
        r@[9].is_number("NoRepair"@, 1),
        r@[10].is_number("EstimatedSize"@, shown_size(size)),
{
    let mut icon = exe.to_owned();
    icon.append(",0");
    let mut command = "\"".to_owned();
    command.append(exe);
    command.append("\" ");
    command.append(UNINSTALL_ARG);
    let kilobytes: u32 = (size / 1024 % 0x1_0000_0000) as u32;
    let mut values: Vec<RegistryValue> = Vec::new();
    values.push(text_value("DisplayName", PRODUCT));
    values.push(text_value("DisplayVersion", version));
    values.push(text_value("DisplayIcon", icon.as_str()));
    values.push(text_value("Publisher", PUBLISHER));
    values.push(text_value("URLInfoAbout", WEB_PAGE));
    values.push(text_value("InstallLocation", dir));
    values.push(text_value("UninstallString", command.as_str()));
    values.push(text_value("QuietUninstallString", command.as_str()));
    values.push(number_value("NoModify", 1));
    values.push(number_value("NoRepair", 1));
    values.push(number_value("EstimatedSize", kilobytes));
    values
}

/// The arguments that end every other copy: they keep the executable and the
/// web view's files locked.
pub fn taskkill_args(own: u32) -> (r: Vec<String>)
    ensures
        r@.len() == 6,
        r@[0]@ == "/F"@,
        r@[1]@ == "/T"@,
        r@[2]@ == "/IM"@,
        r@[3]@ == EXE_NAME@,
        r@[4]@ == "/FI"@,
        r@[5]@ == "PID ne "@ + decimal(own as nat),
{
    let mut filter = "PID ne ".to_owned();
    let own_text = decimal_text(own as u64);
    filter.append(own_text.as_str());
    let mut args: Vec<String> = Vec::new();
    args.push("/F".to_owned());
    args.push("/T".to_owned());
    args.push("/IM".to_owned());
    args.push(EXE_NAME.to_owned());
    args.push("/FI".to_owned());
    args.push(filter);
    args
}

/// The name under which a downloaded version is kept until it is installed.
pub fn update_file(version: &str) -> (r: String)
    ensures
        r@ == "audio-mirror-"@ + version@ + ".exe"@,
{
    let mut name = "audio-mirror-".to_owned();
    name.append(version);
    name.append(".exe");
    name
}

proof fn lemma_newer_at(a: Seq<u64>, b: Seq<u64>, i: int)
    requires
        0 <= i <= a.len(),
        i <= b.len(),
        forall|k: int| 0 <= k < i ==> a[k] == #[trigger] b[k],
    ensures
        i < a.len() && i < b.len() && a[i] != b[i] ==> (newer(a, b) <==> a[i] > b[i]),
        i == b.len() && i < a.len() ==> newer(a, b),
        i == a.len() ==> !newer(a, b),
    decreases i,
{
    if i > 0 {
        assert(a[0] == b[0]);
        assert forall|k: int| 0 <= k < i - 1 implies a.skip(1)[k] == #[trigger] b.skip(1)[k] by {
            assert(a[k + 1] == b[k + 1]);
        }
        lemma_newer_at(a.skip(1), b.skip(1), i - 1);
    }
}

/// The first number that differs decides which version is newer, the greater
/// one; where all that both have are the same, the one with more of them.
pub proof fn law_the_first_difference_decides(a: &Vec<u64>, b: &Vec<u64>, r: bool, i: int)
    requires
        call_ensures(is_newer, (a, b), r),
        0 <= i <= a@.len(),
        i <= b@.len(),
        forall|k: int| 0 <= k < i ==> a@[k] == #[trigger] b@[k],
    ensures
        i < a@.len() && i < b@.len() && a@[i] != b@[i] ==> (r <==> a@[i] > b@[i]),
        i == b@.len() && i < a@.len() ==> r,
        i == a@.len() ==> !r,
{
    lemma_newer_at(a@, b@, i);
}

proof fn lemma_pieces_of(front: Seq<char>, part: Seq<char>)
    requires
        forall|i: int| 0 <= i < part.len() ==> #[trigger] part[i] != '.',
    ensures
        pieces(front + seq!['.'] + part) == pieces(front).push(part),
        pieces(part) == seq![part],
    decreases part.len(),
{
    let all = front + seq!['.'] + part;
    if part.len() == 0 {
        assert(part =~= seq![]);
        assert(all =~= front.push('.'));
        assert(all.drop_last() =~= front);
        assert(pieces(all) == pieces(front).push(part));
    } else {
        let less = part.drop_last();
        assert forall|i: int| 0 <= i < less.len() implies #[trigger] less[i] != '.' by {
            assert(part[i] != '.');
        }
        lemma_pieces_of(front, less);
        assert(part[part.len() - 1] != '.');
        assert(all.drop_last() =~= front + seq!['.'] + less);
        assert(less.push(part.last()) =~= part);
        assert(pieces(all) =~= pieces(front).push(part));
        assert(pieces(part) =~= seq![part]);
    }
}

proof fn lemma_number_of(n: nat)
    ensures
        number(decimal(n)) == n,
        decimal(n).len() > 0,
        forall|i: int| 0 <= i < decimal(n).len() ==> is_digit(#[trigger] decimal(n)[i]),
    decreases n,
{
    reveal_with_fuel(number, 2);
    if n < 10 {
        assert(decimal(n).drop_last() =~= seq![]);
    } else {
        lemma_number_of(n / 10);
        let front = decimal(n / 10);
        assert(decimal(n).drop_last() =~= front);
        assert forall|i: int| 0 <= i < decimal(n).len() implies is_digit(
            #[trigger] decimal(n)[i],
        ) by {
            if i < front.len() {
                assert(decimal(n)[i] == front[i]);
            }
        }
    }
}

proof fn lemma_component_of(n: u64)
    ensures
        component(decimal(n as nat)) == n,
        forall|i: int| 0 <= i < decimal(n as nat).len() ==> #[trigger] decimal(n as nat)[i] != '.',
{
    let digits = decimal(n as nat);
    lemma_number_of(n as nat);
    assert(is_digit(digits[0]));
    assert(unsigned_part(digits) == digits);
    assert forall|i: int| 0 <= i < digits.len() implies #[trigger] digits[i] != '.' by {
        assert(is_digit(digits[i]));
    }
}

/// A version is read as the numbers it is written with: one alone, or one more
/// behind each dot.
pub proof fn law_a_version_is_read_as_it_is_written(
    front: &str,
    numbers: Vec<u64>,
    n: u64,
    version: &str,
    r: Vec<u64>,
)
    requires
        call_ensures(parse, (front,), numbers),
        call_ensures(parse, (version,), r),
    ensures
        version@ == front@ + seq!['.'] + decimal(n as nat) ==> r@ == numbers@.push(n),
        version@ == decimal(n as nat) ==> r@ == seq![n],
{
    let part = decimal(n as nat);
    lemma_component_of(n);
    lemma_pieces_of(front@, part);
    if version@ == front@ + seq!['.'] + part {
        assert(r@ =~= numbers@.push(n));
    }
    if version@ == part {
        assert(r@ =~= seq![n]);
    }
}

/// A part that is no number counts as zero.
pub proof fn law_a_part_that_is_no_number_is_zero(version: &str, r: Vec<u64>, i: int)
    requires
        call_ensures(parse, (version,), r),
        forall|k: int| 0 <= k < version@.len() ==> #[trigger] version@[k] != '.',
        version@.len() == 0 || (1 <= i < version@.len() && !is_digit(version@[i])),
    ensures
        r@.len() == 1,
        r@[0] == 0,
{
    lemma_pieces_of(seq![], version@);
    let digits = unsigned_part(version@);
    if version@.len() > 0 {
        if version@[0] == '+' {
            assert(digits[i - 1] == version@[i]);
        } else {
            assert(digits[i] == version@[i]);
        }
    }
}

/// A launch undoes the install where it is asked to, starts the app where it is
/// installed, and else hands over to the installed one: in whose place it puts
/// itself unless that is newer. A development build does none of this, nor does
/// a launch that does not know where it is.
pub proof fn law_a_launch_does_what_it_is_asked(
    launch: &Launch,
    r: Prepare,
    i: int,
    theirs: Vec<u64>,
    ours: Vec<u64>,
    installed: &str,
    version: &str,
    newer_there: bool,
)
    requires
        call_ensures(Launch::prepare, (launch,), r),
        installed@ == launch.installed_version->0@,
        version@ == launch.version@,
        call_ensures(parse, (installed,), theirs),
        call_ensures(parse, (version,), ours),
        call_ensures(is_newer, (&theirs, &ours), newer_there),
    ensures
        launch.debug || !launch.located ==> r is Run,
        !launch.debug && launch.located ==> {
            &&& 0 <= i < launch.args@.len() && launch.args@[i]@ == "--uninstall"@ ==> r is Uninstall
            &&& r is Uninstall ==> exists|k: int|
                0 <= k < launch.args@.len() && (#[trigger] launch.args@[k])@ == "--uninstall"@
            &&& !(r is Uninstall) && launch.in_place ==> r is Refresh
            &&& !(r is Uninstall) && !launch.in_place ==> (r matches Prepare::Relaunch { copy } && (
            copy <==> !(launch.installed && launch.installed_version is Some && newer_there)))
        },
{
}

/// The app starts in one process: this one where it is installed or a
/// development build, and where handing over failed; never after an uninstall.
pub proof fn law_the_app_starts_once(plan: Prepare, copied: bool, launched: bool, r: bool)
    requires
        call_ensures(goes_on, (plan, copied, launched), r),
    ensures
        plan is Run || plan is Refresh ==> r,
        plan is Uninstall ==> !r,
        plan matches Prepare::Relaunch { copy } ==> {
            &&& !launched ==> r
            &&& copy && !copied ==> r
            &&& launched && (copied || !copy) ==> !r
        },
{
}

/// An install is registered under its name, its version and its folder, with a
/// command that undoes it: the executable in quotes and the argument that asks
/// for it. Its size is shown in kilobytes.
pub proof fn law_an_install_is_registered(
    exe: &str,
    dir: &str,
    version: &str,
    size: u64,
    r: Vec<RegistryValue>,
)
    requires
        call_ensures(register, (exe, dir, version, size), r),
    ensures
        r@.len() == 11,
        r@[0].name@ == "DisplayName"@ && (r@[0].data matches Data::Text(t) && t@
            == "Audio Mirror"@),
        r@[3].name@ == "Publisher"@ && r@[4].name@ == "URLInfoAbout"@,
        r@[8].name@ == "NoModify"@ && r@[9].name@ == "NoRepair"@ && r@[10].name@
            == "EstimatedSize"@,
        r@[1].name@ == "DisplayVersion"@ && (r@[1].data matches Data::Text(t) && t@ == version@),
        r@[2].name@ == "DisplayIcon"@ && (r@[2].data matches Data::Text(t) && t@ == exe@ + ",0"@),
        r@[5].name@ == "InstallLocation"@ && (r@[5].data matches Data::Text(t) && t@ == dir@),
        r@[6].name@ == "UninstallString"@ && (r@[6].data matches Data::Text(t) && t@ == "\""@ + exe@
            + "\" "@ + "--uninstall"@),
        r@[7].name@ == "QuietUninstallString"@ && (r@[7].data matches Data::Text(t) && t@ == "\""@
            + exe@ + "\" "@ + "--uninstall"@),
        size < 0x400_0000_0000 ==> (r@[10].data matches Data::Number(n) && n * 1024 <= size
            < n * 1024 + 1024),
        r@[8].data == Data::Number(1) && r@[9].data == Data::Number(1),
        PRODUCT@ == "Audio Mirror"@,
{
}

/// Every other copy is ended, and not this one; a downloaded version is kept
/// under a name of its own.
pub proof fn law_only_the_other_copies_are_ended(
    own: u32,
    other: u32,
    r: Vec<String>,
    s: Vec<String>,
    version: &str,
    newer_version: &str,
    name: String,
    newer_name: String,
)
    requires
        call_ensures(taskkill_args, (own,), r),
        call_ensures(taskkill_args, (other,), s),
        call_ensures(update_file, (version,), name),
        call_ensures(update_file, (newer_version,), newer_name),
    ensures
        r@.len() == 6 && r@[0]@ == "/F"@ && r@[1]@ == "/T"@ && r@[2]@ == "/IM"@ && r@[4]@ == "/FI"@,
        r@[3]@ == "audio-mirror.exe"@,
        r@[5]@ == "PID ne "@ + decimal(own as nat),
        r@[5]@ == s@[5]@ <==> own == other,
        name@ == newer_name@ <==> version@ == newer_version@,
        name@ == "audio-mirror-"@ + version@ + ".exe"@,
{
    reveal_strlit("PID ne ");
    reveal_strlit("audio-mirror-");
    reveal_strlit(".exe");
    if r@[5]@ == s@[5]@ {
        let a = decimal(own as nat);
        let b = decimal(other as nat);
        assert(a =~= ("PID ne "@ + a).skip(7));
        assert(b =~= ("PID ne "@ + b).skip(7));
        lemma_number_of(own as nat);
        lemma_number_of(other as nat);
    }
    if name@ == newer_name@ {
        let a = version@;
        let b = newer_version@;
        assert(name@.len() == 13 + a.len() + 4);
        assert(newer_name@.len() == 13 + b.len() + 4);
        assert(a =~= ("audio-mirror-"@ + a + ".exe"@).subrange(13, 13 + a.len() as int));
        assert(b =~= ("audio-mirror-"@ + b + ".exe"@).subrange(13, 13 + a.len() as int));
    }
}

/// A plus sign in front of a number does not change it.
pub proof fn law_a_sign_does_not_change_a_version(n: u64, version: &str, r: Vec<u64>)
    requires
        call_ensures(parse, (version,), r),
        version@ == seq!['+'] + decimal(n as nat),
    ensures
        r@ == seq![n],
{
    let digits = decimal(n as nat);
    lemma_component_of(n);
    lemma_number_of(n as nat);
    assert(version@.skip(1) =~= digits);
    assert forall|i: int| 0 <= i < version@.len() implies #[trigger] version@[i] != '.' by {
        if i > 0 {
            assert(version@[i] == digits[i - 1]);
        }
    }
    lemma_pieces_of(seq![], version@);
    assert(component(version@) == n);
    assert(r@ =~= seq![n]);
}

} // verus!
