//! The sound-effect sequencer's decisions: which chip registers each sound
//! sets, and the countdowns that end or re-pitch notes block by block. The
//! gliding pitches themselves are left to the caller.

use vstd::prelude::*;

verus! {

/// A sound effect the game asks for.
#[derive(Clone, Copy, Debug, PartialEq, Eq, Structural)]
pub enum Sound {
    EnemyShoot,
    Explosion,
    Hit,
    Lose,
    Shoot,
    Win,
}

/// A fixed pitch a note starts at; the caller turns it into the chip's
/// frequency registers.
#[derive(Clone, Copy, Debug, PartialEq, Eq, Structural)]
pub enum Tone {
    /// 520 Hz, the enemy shot.
    Zap,
    /// 2 500 Hz, the noise of explosions and hits.
    Burst,
    /// 392 Hz, the start of the losing tune.
    Dirge,
    /// 1 760 Hz, the start of the player's shot.
    Sweep,
    /// 987.77 Hz, the first note of the winning jingle.
    Coin1,
    /// 1 318.5 Hz, its second note.
    Coin2,
    /// 1 661.2 Hz, its third note.
    Coin3,
}

/// One thing to do to the chip.
#[derive(Clone, Copy, Debug, PartialEq, Eq, Structural)]
pub enum ChipCommand {
    /// Store a value in a register.
    Write(u8, u8),
    /// Set a voice's frequency to a tone.
    SetTone(u8, Tone),
}

/// Blocks the hit's noise sounds for.
pub const TINK_BLOCKS: u32 = 45;

/// Blocks the winning jingle lasts.
pub const COIN_BLOCKS: u32 = 300;

/// Blocks the losing tune lasts.
pub const LOSE_BLOCKS: u32 = 300;

/// The chip set-up: full volume, and the envelopes and noise filter the
/// effects start from.
pub open spec fn startup_program() -> Seq<ChipCommand> {
    seq![
        ChipCommand::Write(0x18, 0x0F),
        ChipCommand::Write(0x05, 0x06),
        ChipCommand::Write(0x06, 0x00),
        ChipCommand::Write(0x0C, 0x06),
        ChipCommand::Write(0x0D, 0x00),
        ChipCommand::Write(0x13, 0x08),
        ChipCommand::Write(0x14, 0xA9),
    ]
}

/// The commands that start sound `s`.
pub open spec fn sound_program(s: Sound) -> Seq<ChipCommand> {
    match s {
        Sound::EnemyShoot => seq![
            ChipCommand::SetTone(1, Tone::Zap),
            ChipCommand::Write(0x0B, 0x10),
            ChipCommand::Write(0x0B, 0x11),
        ],
        Sound::Explosion => seq![
            ChipCommand::Write(0x13, 0x08),
            ChipCommand::Write(0x14, 0xA9),
            ChipCommand::SetTone(2, Tone::Burst),
            ChipCommand::Write(0x12, 0x80),
            ChipCommand::Write(0x12, 0x81),
        ],
        Sound::Hit => seq![
            ChipCommand::Write(0x13, 0x05),
            ChipCommand::Write(0x14, 0x00),
            ChipCommand::SetTone(2, Tone::Burst),
            ChipCommand::Write(0x12, 0x80),
            ChipCommand::Write(0x12, 0x81),
        ],
        Sound::Lose => seq![
            ChipCommand::Write(0x0C, 0x00),
            ChipCommand::Write(0x0D, 0xC6),
            ChipCommand::Write(0x09, 0x00),
            ChipCommand::Write(0x0A, 0x08),
            ChipCommand::SetTone(1, Tone::Dirge),
            ChipCommand::Write(0x0B, 0x40),
            ChipCommand::Write(0x0B, 0x41),
        ],
        Sound::Shoot => seq![
            ChipCommand::SetTone(0, Tone::Sweep),
            ChipCommand::Write(0x04, 0x20),
            ChipCommand::Write(0x04, 0x21),
        ],
        Sound::Win => seq![
            ChipCommand::Write(0x05, 0x00),
            ChipCommand::Write(0x06, 0xA9),
            ChipCommand::Write(0x02, 0x00),
            ChipCommand::Write(0x03, 0x08),
            ChipCommand::SetTone(0, Tone::Coin1),
            ChipCommand::Write(0x04, 0x40),
            ChipCommand::Write(0x04, 0x41),
        ],
    }
}

/// The commands one block of the hit's countdown gives, from count `t`:
/// silencing the noise on its last block.
pub open spec fn tink_program(t: int) -> Seq<ChipCommand> {
    if t == 1 {
        seq![ChipCommand::Write(0x12, 0x80)]
    } else {
        seq![]
    }
}

/// The commands one block of the jingle's countdown gives, from count `c`:
/// its second and third notes when the count reaches 245 and 190, and
/// releasing the note when it reaches 0.
pub open spec fn coin_program(c: int) -> Seq<ChipCommand> {
    if c == 246 {
        seq![
            ChipCommand::SetTone(0, Tone::Coin2),
            ChipCommand::Write(0x04, 0x40),
            ChipCommand::Write(0x04, 0x41),
        ]
    } else if c == 191 {
        seq![
            ChipCommand::SetTone(0, Tone::Coin3),
            ChipCommand::Write(0x04, 0x40),
            ChipCommand::Write(0x04, 0x41),
        ]
    } else if c == 1 {
        seq![ChipCommand::Write(0x04, 0x40)]
    } else {
        seq![]
    }
}

/// The commands the end of the losing tune's countdown gives, from count
/// `l`: releasing the note on its last block.
pub open spec fn lose_end_program(l: int) -> Seq<ChipCommand> {
    if l == 1 {
        seq![ChipCommand::Write(0x0B, 0x40)]
    } else {
        seq![]
    }
}

/// A count after one more block.
pub open spec fn count_down(t: int) -> int {
    if t > 0 {
        t - 1
    } else {
        0
    }
}

/// The commands that set the chip up.
pub fn startup_commands() -> (cmds: Vec<ChipCommand>)
    ensures
        cmds@ == startup_program(),
{
    let mut cmds = Vec::new();
    cmds.push(ChipCommand::Write(0x18, 0x0F));
    cmds.push(ChipCommand::Write(0x05, 0x06));
    cmds.push(ChipCommand::Write(0x06, 0x00));
    cmds.push(ChipCommand::Write(0x0C, 0x06));
    cmds.push(ChipCommand::Write(0x0D, 0x00));
    cmds.push(ChipCommand::Write(0x13, 0x08));
    cmds.push(ChipCommand::Write(0x14, 0xA9));
    assert(cmds@ =~= startup_program());
    cmds
}

/// The countdowns of the notes that end, or change pitch, after a number of
/// blocks.
pub struct SoundTimers {
    tink: u32,
    coin: u32,
    lose: u32,
}

impl SoundTimers {
    /// Blocks left of the hit's noise.
    pub closed spec fn tink(&self) -> int {
        self.tink as int
    }

    /// Blocks left of the winning jingle.
    pub closed spec fn coin(&self) -> int {
        self.coin as int
    }

    /// Blocks left of the losing tune.
    pub closed spec fn lose(&self) -> int {
        self.lose as int
    }

    /// No countdown running.
    pub fn new() -> (t: Self)
        ensures
            t.tink() == 0,
            t.coin() == 0,
            t.lose() == 0,
    {
        SoundTimers { tink: 0, coin: 0, lose: 0 }
    }

    /// Starts sound `s`: returns the commands that start it, and starts or
    /// stops the countdowns it governs (an explosion cuts the hit's noise
    /// short, a hit starts it, losing and winning start their tunes).
    pub fn on_sound(&mut self, s: Sound) -> (cmds: Vec<ChipCommand>)
        ensures
            cmds@ == sound_program(s),
            final(self).tink() == match s {
                Sound::Explosion => 0,
                Sound::Hit => TINK_BLOCKS as int,
                _ => old(self).tink(),
            },
            final(self).coin() == if s == Sound::Win {
                COIN_BLOCKS as int
            } else {
                old(self).coin()
            },
            final(self).lose() == if s == Sound::Lose {
                LOSE_BLOCKS as int
            } else {
                old(self).lose()
            },
    {
        let mut cmds = Vec::new();
        match s {
            Sound::EnemyShoot => {
                cmds.push(ChipCommand::SetTone(1, Tone::Zap));
                cmds.push(ChipCommand::Write(0x0B, 0x10));
                cmds.push(ChipCommand::Write(0x0B, 0x11));
            },
            Sound::Explosion => {
                self.tink = 0;
                cmds.push(ChipCommand::Write(0x13, 0x08));
                cmds.push(ChipCommand::Write(0x14, 0xA9));
                cmds.push(ChipCommand::SetTone(2, Tone::Burst));
                cmds.push(ChipCommand::Write(0x12, 0x80));
                cmds.push(ChipCommand::Write(0x12, 0x81));
            },
            Sound::Hit => {
                cmds.push(ChipCommand::Write(0x13, 0x05));
                cmds.push(ChipCommand::Write(0x14, 0x00));
                self.tink = TINK_BLOCKS;
                cmds.push(ChipCommand::SetTone(2, Tone::Burst));
                cmds.push(ChipCommand::Write(0x12, 0x80));
                cmds.push(ChipCommand::Write(0x12, 0x81));
            },
            Sound::Lose => {
                cmds.push(ChipCommand::Write(0x0C, 0x00));
                cmds.push(ChipCommand::Write(0x0D, 0xC6));
                cmds.push(ChipCommand::Write(0x09, 0x00));
                cmds.push(ChipCommand::Write(0x0A, 0x08));
                self.lose = LOSE_BLOCKS;
                cmds.push(ChipCommand::SetTone(1, Tone::Dirge));
                cmds.push(ChipCommand::Write(0x0B, 0x40));
                cmds.push(ChipCommand::Write(0x0B, 0x41));
            },
            Sound::Shoot => {
                cmds.push(ChipCommand::SetTone(0, Tone::Sweep));
                cmds.push(ChipCommand::Write(0x04, 0x20));
                cmds.push(ChipCommand::Write(0x04, 0x21));
            },
            Sound::Win => {
                cmds.push(ChipCommand::Write(0x05, 0x00));
                cmds.push(ChipCommand::Write(0x06, 0xA9));
                cmds.push(ChipCommand::Write(0x02, 0x00));
                cmds.push(ChipCommand::Write(0x03, 0x08));
                self.coin = COIN_BLOCKS;
                cmds.push(ChipCommand::SetTone(0, Tone::Coin1));
                cmds.push(ChipCommand::Write(0x04, 0x40));
                cmds.push(ChipCommand::Write(0x04, 0x41));
            },
        }
        assert(cmds@ =~= sound_program(s));
        cmds
    }

    /// One block of the hit's countdown.
    pub fn tick_tink(&mut self) -> (cmds: Vec<ChipCommand>)
        ensures
            cmds@ == tink_program(old(self).tink()),
            final(self).tink() == count_down(old(self).tink()),
            final(self).coin() == old(self).coin(),
            final(self).lose() == old(self).lose(),
    {
        let mut cmds = Vec::new();
        if self.tink > 0 {
            self.tink = self.tink - 1;
            if self.tink == 0 {
                cmds.push(ChipCommand::Write(0x12, 0x80));
            }
        }
        assert(cmds@ =~= tink_program(old(self).tink()));
        cmds
    }

    /// One block of the winning jingle's countdown.
    pub fn tick_coin(&mut self) -> (cmds: Vec<ChipCommand>)
        ensures
            cmds@ == coin_program(old(self).coin()),
            final(self).coin() == count_down(old(self).coin()),
            final(self).tink() == old(self).tink(),
            final(self).lose() == old(self).lose(),
    {
        let mut cmds = Vec::new();
        if self.coin > 0 {
            self.coin = self.coin - 1;
            if self.coin == 245 || self.coin == 190 {
                let tone = if self.coin == 245 {
                    Tone::Coin2
                } else {
                    Tone::Coin3
                };
                cmds.push(ChipCommand::SetTone(0, tone));
                cmds.push(ChipCommand::Write(0x04, 0x40));
                cmds.push(ChipCommand::Write(0x04, 0x41));
            }
            if self.coin == 0 {
                cmds.push(ChipCommand::Write(0x04, 0x40));
            }
        }
        assert(cmds@ =~= coin_program(old(self).coin()));
        cmds
    }

    /// One block of the losing tune's countdown: whether the tune sounds in
    /// this block (its pitch is the caller's to glide, before the commands
    /// given), and the commands that end it on its last block.
    pub fn tick_lose(&mut self) -> (r: (bool, Vec<ChipCommand>))
        ensures
            r.0 == (old(self).lose() > 0),
            r.1@ == lose_end_program(old(self).lose()),
            final(self).lose() == count_down(old(self).lose()),
            final(self).tink() == old(self).tink(),
            final(self).coin() == old(self).coin(),
    {
        let mut cmds = Vec::new();
        if self.lose > 0 {
            self.lose = self.lose - 1;
            if self.lose == 0 {
                cmds.push(ChipCommand::Write(0x0B, 0x40));
            }
            assert(cmds@ =~= lose_end_program(old(self).lose()));
            (true, cmds)
        } else {
            assert(cmds@ =~= lose_end_program(old(self).lose()));
            (false, cmds)
        }
    }
}

/// The voice whose control register is `reg`, if `reg` is one: registers
/// 0x04, 0x0B and 0x12 hold the key bit (bit 0, which starts a note when
/// set and releases it when cleared) of voices 0, 1 and 2.
pub open spec fn control_voice(reg: u8) -> Option<u8> {
    if reg == 0x04 {
        Some(0u8)
    } else if reg == 0x0B {
        Some(1u8)
    } else if reg == 0x12 {
        Some(2u8)
    } else {
        None
    }
}

/// Whether `prog` ends by restarting voice `v`'s note: a write to that
/// voice's control register with the key bit clear, then one with it set.
pub open spec fn ends_retriggering(prog: Seq<ChipCommand>, v: u8) -> bool {
    &&& prog.len() >= 2
    &&& prog[prog.len() - 2] matches ChipCommand::Write(r1, a) && control_voice(r1) == Some(v)
        && a % 2 == 0
    &&& prog[prog.len() - 1] matches ChipCommand::Write(r2, b) && control_voice(r2) == Some(v)
        && b % 2 == 1
}

/// Whether each tone `prog` sets is on the voice it keys: every control
/// register it writes is that voice's, and it ends by restarting that
/// voice's note.
pub open spec fn tones_start_notes(prog: Seq<ChipCommand>) -> bool {
    forall|i: int|
        0 <= i < prog.len() && #[trigger] prog[i] is SetTone ==> {
            &&& ends_retriggering(prog, prog[i]->SetTone_0)
            &&& forall|j: int|
                0 <= j < prog.len() && #[trigger] prog[j] is Write && control_voice(
                    prog[j]->Write_0,
                ) is Some ==> control_voice(prog[j]->Write_0) == Some(prog[i]->SetTone_0)
        }
}

/// Every sound that sets a tone sets it on the voice whose note it starts,
/// and starts that note afresh (key bit cleared, then set).
pub proof fn lemma_sounds_start_notes(s: Sound)
    ensures
        tones_start_notes(sound_program(s)),
{
}

/// Whether `cmd` sets a tone on voice `v`.
pub open spec fn sets_tone_on(cmd: ChipCommand, v: u8) -> bool {
    match cmd {
        ChipCommand::SetTone(w, _) => w == v,
        _ => false,
    }
}

/// Whether `cmd` writes voice `v`'s control register.
pub open spec fn writes_control_of(cmd: ChipCommand, v: u8) -> bool {
    match cmd {
        ChipCommand::Write(r, _) => control_voice(r) == Some(v),
        _ => false,
    }
}

/// Whether `prog` sets a tone on voice `v` or writes its control register.
pub open spec fn uses_voice(prog: Seq<ChipCommand>, v: u8) -> bool {
    exists|i: int|
        0 <= i < prog.len() && (sets_tone_on(#[trigger] prog[i], v) || writes_control_of(
            prog[i],
            v,
        ))
}

/// The tone `prog` sets on voice `v`, if it sets one.
pub open spec fn tone_set(prog: Seq<ChipCommand>, v: u8) -> Option<Tone> {
    if exists|i: int| 0 <= i < prog.len() && sets_tone_on(#[trigger] prog[i], v) {
        let i = choose|i: int| 0 <= i < prog.len() && sets_tone_on(#[trigger] prog[i], v);
        Some(prog[i]->SetTone_1)
    } else {
        None
    }
}

/// The player's shot, the enemy's shot and the explosions each keep to a
/// voice of their own, so none cuts another off.
pub proof fn lemma_effects_on_separate_voices(v: u8)
    ensures
        !(uses_voice(sound_program(Sound::Shoot), v) && uses_voice(
            sound_program(Sound::EnemyShoot),
            v,
        )),
        !(uses_voice(sound_program(Sound::Shoot), v) && uses_voice(
            sound_program(Sound::Explosion),
            v,
        )),
        !(uses_voice(sound_program(Sound::EnemyShoot), v) && uses_voice(
            sound_program(Sound::Explosion),
            v,
        )),
{
}

/// Each note of the winning jingle is set on voice 0 and started afresh;
/// its second and third notes (at counts 246 and 191) are new pitches,
/// unlike each other and the first.
pub proof fn lemma_jingle_notes_start(c: int)
    ensures
        tones_start_notes(coin_program(c)),
        (c == 246 || c == 191) ==> tone_set(coin_program(c), 0) is Some,
        tone_set(coin_program(246), 0) != tone_set(coin_program(191), 0),
        tone_set(coin_program(246), 0) != tone_set(sound_program(Sound::Win), 0),
        tone_set(coin_program(191), 0) != tone_set(sound_program(Sound::Win), 0),
{
    assert(sets_tone_on(coin_program(246)[0], 0));
    assert(sets_tone_on(coin_program(191)[0], 0));
    assert(sets_tone_on(sound_program(Sound::Win)[4], 0));
}

/// The count of a countdown started at `start` after `k` blocks.
pub open spec fn count_after(start: int, k: nat) -> int {
    if start >= k {
        start - k
    } else {
        0
    }
}

/// Counting down block by block agrees with `count_after`.
pub proof fn lemma_count_after_step(start: int, k: nat)
    requires
        start >= 0,
    ensures
        count_down(count_after(start, k)) == count_after(start, k + 1),
{
}

/// The winning jingle changes the chip only on its 55th block (second
/// note), its 110th (third note) and its 300th (note released), counting the
/// block after the win as the first.
pub proof fn lemma_coin_jingle(k: nat)
    requires
        1 <= k <= COIN_BLOCKS,
    ensures
        (coin_program(count_after(COIN_BLOCKS as int, (k - 1) as nat)).len() > 0) == (k == 55 || k
            == 110 || k == COIN_BLOCKS),
{
}

/// The hit's noise is cut off on its 45th block, and the losing tune ends on
/// its 300th.
pub proof fn lemma_note_lengths(k: nat)
    requires
        1 <= k,
    ensures
        (tink_program(count_after(TINK_BLOCKS as int, (k - 1) as nat)).len() > 0) == (k
            == TINK_BLOCKS),
        (lose_end_program(count_after(LOSE_BLOCKS as int, (k - 1) as nat)).len() > 0) == (k
            == LOSE_BLOCKS),
        (count_after(LOSE_BLOCKS as int, (k - 1) as nat) > 0) == (k <= LOSE_BLOCKS),
{
}

} // verus!
