//! The control channel: decoding datagrams into messages and applying each
//! message to the settings, or turning it into maintenance work.
use vstd::prelude::*;
use vstd::string::StringExecFns;
use crate::layout::{text, LogFile};
use crate::settings::{max_characters_key, max_sentences_key, osc_address_key, SettingValue,
    SettingView, Settings};

verus! {

/// How deep bundles may nest; messages below that depth are dropped.
pub const MAX_BUNDLE_DEPTH: usize = 8;

/// The longest datagram that is decoded (rosc's `decoder::MTU`); longer ones
/// are dropped before decoding, which bounds how deep the decoder recurses.
pub const MAX_DATAGRAM: usize = 1536;

/// One argument of a control message.
pub enum ControlArg {
    Int(i32),
    Text(String),
    /// Any other argument type.
    Other,
}

pub enum ArgView {
    Int(int),
    Text(Seq<char>),
    Other,
}

impl View for ControlArg {
    type V = ArgView;

    open spec fn view(&self) -> ArgView {
        match self {
            ControlArg::Int(n) => ArgView::Int(*n as int),
            ControlArg::Text(s) => ArgView::Text(s@),
            ControlArg::Other => ArgView::Other,
        }
    }
}

pub struct ControlMessage {
    /// The command name, such as `/remove_tmp_csv`.
    pub addr: String,
    pub args: Vec<ControlArg>,
}

/// A decoded datagram: one message, or a bundle of packets.
pub enum ControlPacket {
    Message(ControlMessage),
    Bundle(Vec<ControlPacket>),
}

/// What a control message asks for.
pub enum Command {
    SetOscAddress(String),
    SetMaxCharacters(i32),
    SetMaxSentences(i32),
    RemoveAllCsv,
    RemoveOutputCsv(String),
    RemoveTmpCsv,
    /// Not a known command, or not with these arguments; carries the address.
    Unknown(String),
}

pub enum CommandView {
    SetOscAddress(Seq<char>),
    SetMaxCharacters(int),
    SetMaxSentences(int),
    RemoveAllCsv,
    RemoveOutputCsv(Seq<char>),
    RemoveTmpCsv,
    Unknown(Seq<char>),
}

impl View for Command {
    type V = CommandView;

    open spec fn view(&self) -> CommandView {
        match self {
            Command::SetOscAddress(a) => CommandView::SetOscAddress(a@),
            Command::SetMaxCharacters(n) => CommandView::SetMaxCharacters(*n as int),
            Command::SetMaxSentences(n) => CommandView::SetMaxSentences(*n as int),
            Command::RemoveAllCsv => CommandView::RemoveAllCsv,
            Command::RemoveOutputCsv(f) => CommandView::RemoveOutputCsv(f@),
            Command::RemoveTmpCsv => CommandView::RemoveTmpCsv,
            Command::Unknown(a) => CommandView::Unknown(a@),
        }
    }
}

/// Work that a command leaves for the caller.
pub enum Action {
    /// Write the settings out.
    Save,
    /// Tell the user interface the new `max_characters`.
    AnnounceMaxCharacters(i32),
    /// Delete every file of the rotation directory.
    ClearRotationDir,
    /// Delete a file if it is there.
    RemoveFile(LogFile),
    /// Nothing to do for a message with this address.
    Ignore(String),
}

pub enum ActionView {
    Save,
    AnnounceMaxCharacters(int),
    ClearRotationDir,
    RemoveHot,
    RemoveOutput(Seq<char>),
    RemoveOther,
    Ignore(Seq<char>),
}

impl View for Action {
    type V = ActionView;

    open spec fn view(&self) -> ActionView {
        match self {
            Action::Save => ActionView::Save,
            Action::AnnounceMaxCharacters(n) => ActionView::AnnounceMaxCharacters(*n as int),
            Action::ClearRotationDir => ActionView::ClearRotationDir,
            Action::RemoveFile(LogFile::Hot) => ActionView::RemoveHot,
            Action::RemoveFile(LogFile::Output(f)) => ActionView::RemoveOutput(f@),
            Action::RemoveFile(_) => ActionView::RemoveOther,
            Action::Ignore(a) => ActionView::Ignore(a@),
        }
    }
}

/// The command that a message with this address and these arguments asks for.
pub open spec fn command_of(addr: Seq<char>, args: Seq<ArgView>) -> CommandView {
    if addr == text("/td_osc_address") && args.len() == 1 && args[0] is Text {
        CommandView::SetOscAddress(args[0]->Text_0)
    } else if addr == text("/max_characters") && args.len() == 1 && args[0] is Int {
        CommandView::SetMaxCharacters(args[0]->Int_0)
    } else if addr == text("/max_sentences_per_csv") && args.len() == 1 && args[0] is Int {
        CommandView::SetMaxSentences(args[0]->Int_0)
    } else if addr == text("/remove_all_csv") && args.len() == 0 {
        CommandView::RemoveAllCsv
    } else if addr == text("/remove_output_csv") && args.len() == 1 && args[0] is Text {
        CommandView::RemoveOutputCsv(args[0]->Text_0)
    } else if addr == text("/remove_tmp_csv") && args.len() == 0 {
        CommandView::RemoveTmpCsv
    } else {
        CommandView::Unknown(addr)
    }
}

pub open spec fn args_view(args: Seq<ControlArg>) -> Seq<ArgView> {
    args.map_values(|a: ControlArg| a@)
}

pub open spec fn message_command(m: ControlMessage) -> CommandView {
    command_of(m.addr@, args_view(m.args@))
}

/// The commands of a list of packets, in order, descending into at most
/// `depth` levels of bundles.
pub open spec fn commands_of(ps: Seq<ControlPacket>, depth: nat) -> Seq<CommandView>
    decreases depth, ps.len(),
{
    if ps.len() == 0 {
        Seq::empty()
    } else {
        commands_of(ps.drop_last(), depth) + match ps.last() {
            ControlPacket::Message(m) => seq![message_command(m)],
            ControlPacket::Bundle(inner) => if depth == 0 {
                Seq::empty()
            } else {
                commands_of(inner@, (depth - 1) as nat)
            },
        }
    }
}

/// The settings after a command.
pub open spec fn applied(m: Map<Seq<char>, SettingView>, c: CommandView) -> Map<Seq<char>, SettingView> {
    match c {
        CommandView::SetOscAddress(a) => m.insert(osc_address_key(), SettingView::Text(a)),
        CommandView::SetMaxCharacters(n) => m.insert(max_characters_key(), SettingView::Int(n)),
        CommandView::SetMaxSentences(n) => if n >= 1 {
            m.insert(max_sentences_key(), SettingView::Int(n))
        } else {
            m
        },
        _ => m,
    }
}

/// The work a command leaves: a change of the settings is followed by one
/// save. A row cap below 1 is not stored: the message is ignored.
pub open spec fn actions_of(c: CommandView) -> Seq<ActionView> {
    match c {
        CommandView::SetOscAddress(_) => seq![ActionView::Save],
        CommandView::SetMaxCharacters(n) => seq![ActionView::AnnounceMaxCharacters(n), ActionView::Save],
        CommandView::SetMaxSentences(n) => if n >= 1 {
            seq![ActionView::Save]
        } else {
            seq![ActionView::Ignore(text("/max_sentences_per_csv"))]
        },
        CommandView::RemoveAllCsv => seq![ActionView::ClearRotationDir, ActionView::RemoveHot],
        CommandView::RemoveOutputCsv(f) => seq![ActionView::RemoveOutput(f)],
        CommandView::RemoveTmpCsv => seq![ActionView::RemoveHot],
        CommandView::Unknown(a) => seq![ActionView::Ignore(a)],
    }
}

/// The settings after a run of commands, in order.
pub open spec fn applied_all(m: Map<Seq<char>, SettingView>, cs: Seq<CommandView>) -> Map<Seq<char>, SettingView>
    decreases cs.len(),
{
    if cs.len() == 0 {
        m
    } else {
        applied(applied_all(m, cs.drop_last()), cs.last())
    }
}

/// The work a run of commands leaves, in order.
pub open spec fn actions_all(cs: Seq<CommandView>) -> Seq<ActionView>
    decreases cs.len(),
{
    if cs.len() == 0 {
        Seq::empty()
    } else {
        actions_all(cs.drop_last()) + actions_of(cs.last())
    }
}

pub open spec fn actions_view(a: Seq<Action>) -> Seq<ActionView> {
    a.map_values(|x: Action| x@)
}

/// The packet that rosc decodes from a datagram, in the library's form, or
/// `None` where rosc reports an error.
pub uninterp spec fn osc_packet_of(datagram: Seq<u8>) -> Option<ControlPacket>;

#[verifier::external_type_specification]
#[verifier::external_body]
pub struct ExOscPacket(rosc::OscPacket);

/// Relies on rosc's packet types: turns a decoded packet into the library's
/// form one for one; arguments other than integers and strings become
/// `Other`.
#[verifier::external_body]
fn packet_from_osc(p: rosc::OscPacket) -> ControlPacket {
    match p {
        rosc::OscPacket::Message(m) => ControlPacket::Message(ControlMessage {
            addr: m.addr,
            args: m.args.into_iter().map(|a| match a {
                rosc::OscType::Int(i) => ControlArg::Int(i),
                rosc::OscType::String(s) => ControlArg::Text(s),
                _ => ControlArg::Other,
            }).collect(),
        }),
        rosc::OscPacket::Bundle(b) => ControlPacket::Bundle(
            b.content.into_iter().map(packet_from_osc).collect(),
        ),
    }
}

/// Relies on rosc::decoder::decode_udp: the packet depends on the datagram
/// alone. The decoder recurses once per level of nested bundles, so only
/// datagrams of at most `MAX_DATAGRAM` bytes are handed to it.
#[verifier::external_body]
fn decode_datagram(datagram: &[u8]) -> (r: Option<ControlPacket>)
    requires
        datagram@.len() <= MAX_DATAGRAM,
    ensures
        r == osc_packet_of(datagram@),
{
    match rosc::decoder::decode_udp(datagram) {
        Ok((_, p)) => Some(packet_from_osc(p)),
        Err(_) => None,
    }
}

fn same_text(a: &String, b: &str) -> (r: bool)
    ensures
        r == (a@ == b@),
{
    *a == String::from_str(b)
}

impl ControlArg {
    fn text_copy(&self) -> (r: Option<String>)
        ensures
            match r {
                Some(s) => self@ is Text && self@->Text_0 == s@,
                None => !(self@ is Text),
            },
    {
        match self {
            ControlArg::Text(s) => Some(s.clone()),
            _ => None,
        }
    }

    fn int_value(&self) -> (r: Option<i32>)
        ensures
            match r {
                Some(n) => self@ is Int && self@->Int_0 == n as int,
                None => !(self@ is Int),
            },
    {
        match self {
            ControlArg::Int(n) => Some(*n),
            _ => None,
        }
    }
}

impl ControlMessage {
    /// The command this message asks for.
    pub fn command(&self) -> (r: Command)
        ensures
            r@ == message_command(*self),
    {
        let a = &self.addr;
        let n = self.args.len();
        assert(args_view(self.args@).len() == n);
        if n == 1 {
            assert(args_view(self.args@)[0] == self.args@[0]@);
        }
        if same_text(a, "/td_osc_address") && n == 1 {
            if let Some(s) = self.args[0].text_copy() {
                return Command::SetOscAddress(s);
            }
        }
        if same_text(a, "/max_characters") && n == 1 {
            if let Some(v) = self.args[0].int_value() {
                return Command::SetMaxCharacters(v);
            }
        }
        if same_text(a, "/max_sentences_per_csv") && n == 1 {
            if let Some(v) = self.args[0].int_value() {
                return Command::SetMaxSentences(v);
            }
        }
        if same_text(a, "/remove_all_csv") && n == 0 {
            return Command::RemoveAllCsv;
        }
        if same_text(a, "/remove_output_csv") && n == 1 {
            if let Some(s) = self.args[0].text_copy() {
                return Command::RemoveOutputCsv(s);
            }
        }
        if same_text(a, "/remove_tmp_csv") && n == 0 {
            return Command::RemoveTmpCsv;
        }
        Command::Unknown(a.clone())
    }
}

/// Appends the commands of `ps`, in order, to `out`, descending into at
/// most `depth` levels of bundles.
pub fn collect_commands(ps: &Vec<ControlPacket>, depth: usize, out: &mut Vec<Command>)
    ensures
        final(out)@.map_values(|c: Command| c@) == old(out)@.map_values(|c: Command| c@)
            + commands_of(ps@, depth as nat),
    decreases depth, ps@.len(),
{
    let ghost start = old(out)@.map_values(|c: Command| c@);
    let mut i: usize = 0;
    while i < ps.len()
        invariant
            i <= ps@.len(),
            out@.map_values(|c: Command| c@) == start + commands_of(ps@.subrange(0, i as int), depth as nat),
        decreases ps@.len() - i,
    {
        let ghost before = out@.map_values(|c: Command| c@);
        let ghost pre = ps@.subrange(0, i as int);
        assert(ps@.subrange(0, i + 1).drop_last() =~= pre);
        match &ps[i] {
            ControlPacket::Message(m) => {
                out.push(m.command());
                assert(out@.map_values(|c: Command| c@) =~= before + seq![message_command(*m)]);
            },
            ControlPacket::Bundle(inner) => {
                if depth > 0 {
                    collect_commands(inner, depth - 1, out);
                } else {
                    assert(out@.map_values(|c: Command| c@) =~= before + Seq::<CommandView>::empty());
                }
            },
        }
        i = i + 1;
        assert(out@.map_values(|c: Command| c@) =~= start + commands_of(ps@.subrange(0, i as int), depth as nat));
    }
    assert(ps@.subrange(0, ps@.len() as int) =~= ps@);
}

/// Applies one command to the settings and says what is left to do.
pub fn apply_command(settings: &mut Settings, c: &Command) -> (r: Vec<Action>)
    ensures
        final(settings)@ == applied(old(settings)@, c@),
        actions_view(r@) == actions_of(c@),
{
    let r = match c {
        Command::SetOscAddress(a) => {
            settings.insert("td_osc_address", SettingValue::Text(a.clone()));
            vec![Action::Save]
        },
        Command::SetMaxCharacters(n) => {
            settings.insert("max_characters", SettingValue::Int(*n as i64));
            vec![Action::AnnounceMaxCharacters(*n), Action::Save]
        },
        Command::SetMaxSentences(n) => if *n >= 1 {
            settings.insert("max_sentences_per_csv", SettingValue::Int(*n as i64));
            vec![Action::Save]
        } else {
            vec![Action::Ignore(String::from_str("/max_sentences_per_csv"))]
        },
        Command::RemoveAllCsv => vec![Action::ClearRotationDir, Action::RemoveFile(LogFile::Hot)],
        Command::RemoveOutputCsv(f) => vec![Action::RemoveFile(LogFile::Output(f.clone()))],
        Command::RemoveTmpCsv => vec![Action::RemoveFile(LogFile::Hot)],
        Command::Unknown(a) => vec![Action::Ignore(a.clone())],
    };
    assert(actions_view(r@) =~= actions_of(c@));
    r
}

/// Applies a run of commands in order and says what is left to do.
pub fn apply_commands(settings: &mut Settings, cs: &Vec<Command>) -> (r: Vec<Action>)
    ensures
        final(settings)@ == applied_all(old(settings)@, cs@.map_values(|c: Command| c@)),
        actions_view(r@) == actions_all(cs@.map_values(|c: Command| c@)),
{
    let ghost cv = cs@.map_values(|c: Command| c@);
    let ghost m0 = settings@;
    let mut r: Vec<Action> = Vec::new();
    let mut i: usize = 0;
    while i < cs.len()
        invariant
            cv == cs@.map_values(|c: Command| c@),
            i <= cs@.len(),
            settings@ == applied_all(m0, cv.subrange(0, i as int)),
            actions_view(r@) == actions_all(cv.subrange(0, i as int)),
        decreases cs@.len() - i,
    {
        let ghost before = actions_view(r@);
        let mut more = apply_command(settings, &cs[i]);
        let ghost extra = actions_view(more@);
        r.append(&mut more);
        assert(cv.subrange(0, i + 1).drop_last() =~= cv.subrange(0, i as int));
        assert(actions_view(r@) =~= before + extra);
        i = i + 1;
    }
    assert(cv.subrange(0, cs@.len() as int) =~= cv);
    r
}

/// Decodes a datagram and applies its commands, descending into at most
/// `MAX_BUNDLE_DEPTH` levels of bundles. `None`, with the settings left as
/// they were, where the datagram is longer than `MAX_DATAGRAM` bytes or does
/// not decode.
pub fn handle_datagram(settings: &mut Settings, datagram: &[u8]) -> (r: Option<Vec<Action>>)
    ensures
        datagram@.len() > MAX_DATAGRAM ==> r is None && final(settings)@ == old(settings)@,
        datagram@.len() <= MAX_DATAGRAM ==> match osc_packet_of(datagram@) {
            None => r is None && final(settings)@ == old(settings)@,
            Some(p) => r is Some && {
                let cs = commands_of(seq![p], MAX_BUNDLE_DEPTH as nat);
                &&& final(settings)@ == applied_all(old(settings)@, cs)
                &&& actions_view(r->0@) == actions_all(cs)
            },
        },
{
    if datagram.len() > MAX_DATAGRAM {
        return None;
    }
    match decode_datagram(datagram) {
        None => None,
        Some(p) => {
            let ps = vec![p];
            assert(ps@ =~= seq![osc_packet_of(datagram@)->Some_0]);
            let mut cs: Vec<Command> = Vec::new();
            collect_commands(&ps, MAX_BUNDLE_DEPTH, &mut cs);
            assert(cs@.map_values(|c: Command| c@) =~= commands_of(ps@, MAX_BUNDLE_DEPTH as nat));
            Some(apply_commands(settings, &cs))
        },
    }
}

/// Two row-cap updates applied one after the other, each as a whole step:
/// the later one's value is what remains, whichever order they ran in.
/// This states only the order of the two steps; that the steps do not
/// interleave is the caller's lock.
pub proof fn lemma_serialized_cap_updates(m: Map<Seq<char>, SettingView>, a: int, b: int)
    requires
        a >= 1,
        b >= 1,
    ensures
        applied(applied(m, CommandView::SetMaxSentences(a)), CommandView::SetMaxSentences(b))[max_sentences_key()]
            == SettingView::Int(b),
        applied(applied(m, CommandView::SetMaxSentences(b)), CommandView::SetMaxSentences(a))[max_sentences_key()]
            == SettingView::Int(a),
{
}

/// A stored row cap of at least 1 stays so under every run of commands.
pub proof fn lemma_cap_stays_positive(m: Map<Seq<char>, SettingView>, cs: Seq<CommandView>)
    requires
        m.contains_key(max_sentences_key()),
        m[max_sentences_key()] is Int && m[max_sentences_key()]->Int_0 >= 1,
    ensures
        applied_all(m, cs).contains_key(max_sentences_key()),
        applied_all(m, cs)[max_sentences_key()] is Int,
        applied_all(m, cs)[max_sentences_key()]->Int_0 >= 1,
    decreases cs.len(),
{
    if cs.len() > 0 {
        lemma_cap_stays_positive(m, cs.drop_last());
        assert(max_characters_key() != max_sentences_key()) by {
            reveal_strlit("max_characters");
            reveal_strlit("max_sentences_per_csv");
            assert(max_characters_key().len() != max_sentences_key().len());
        }
        assert(osc_address_key() != max_sentences_key()) by {
            reveal_strlit("td_osc_address");
            reveal_strlit("max_sentences_per_csv");
            assert(osc_address_key().len() != max_sentences_key().len());
        }
    }
}

} // verus!
