//! The programming session: the verified core of the orchestration
//! state machine.
//!
//! A session walks `Closed → Opened → Initialized → Programming →
//! Programmed`, and back to `Closed` on close or on an unrecoverable
//! failure.  The session owns the decoded key table, the two cipher
//! cursors and the latest configuration snapshot.  The unverified
//! transport shell performs the bulk transfers; every payload it reads
//! is installed here, and every payload it writes is produced here,
//! so the protocol arithmetic is verified end to end.

use vstd::prelude::*;
use crate::bitstream::{decode_bitstream, file_words, views_of_lines};
use crate::cfg::Cfg;
use crate::cipher::{decode_encrypt_table, decoded_table, xor_stream};
use crate::device_error::DeviceError;
use crate::wire::{le_bytes_of, le_bytes_to_words, words_of_le_bytes, words_to_le_bytes};

verus! {

/// The lifecycle of a programming session.
#[derive(Clone, Copy, PartialEq, Eq, Structural, Debug)]
pub enum SessionState {
    /// No hardware handle is held.
    Closed,
    /// The handle is held and the interface claimed.
    Opened,
    /// The key table is installed and a baseline snapshot captured.
    Initialized,
    /// The programming upload is prepared or under way.
    Programming,
    /// The device's own latch confirmed the programming.
    Programmed,
}

/// The verified state of one device session.
pub struct DeviceSession {
    /// The decoded key table: words 0..16 are the encode key, words
    /// 16..32 the decode key.
    pub encrypt_table: Vec<u16>,
    /// Cursor of the encode direction, cycling over 0..16.
    pub encode_index: usize,
    /// Cursor of the decode direction, cycling over 0..16.
    pub decode_index: usize,
    /// The latest configuration snapshot.
    pub cfg: Cfg,
    /// Where the session stands in its lifecycle.
    pub state: SessionState,
}

impl DeviceSession {
    /// The session's invariant: a 32-word key table, both cursors in
    /// range, and a well-formed snapshot.
    pub open spec fn wf(&self) -> bool {
        &&& self.encrypt_table@.len() == 32
        &&& self.encode_index < 16
        &&& self.decode_index < 16
        &&& self.cfg.wf()
    }

    /// The 16-word key of the encode direction.
    pub open spec fn spec_encode_key(&self) -> Seq<u16> {
        self.encrypt_table@.subrange(0, 16)
    }

    /// The 16-word key of the decode direction.
    pub open spec fn spec_decode_key(&self) -> Seq<u16> {
        self.encrypt_table@.subrange(16, 32)
    }

    /// A fresh session: closed, zero key table, cursors at zero, and an
    /// all-zero snapshot.
    pub fn new() -> (r: Self)
        ensures
            r.wf(),
            r.state is Closed,
            r.encode_index == 0,
            r.decode_index == 0,
            forall|i: int| 0 <= i < 32 ==> r.encrypt_table@[i] == 0u16,
            forall|i: int| 0 <= i < 64 ==> r.cfg.cfg@[i] == 0u16,
    {
        let mut table: Vec<u16> = Vec::new();
        let mut i: usize = 0;
        while i < 32
            invariant
                i <= 32,
                table@.len() == i,
                forall|k: int| 0 <= k < i ==> table@[k] == 0u16,
            decreases 32 - i,
        {
            table.push(0u16);
            i = i + 1;
        }
        DeviceSession {
            encrypt_table: table,
            encode_index: 0,
            decode_index: 0,
            cfg: Cfg::new(),
            state: SessionState::Closed,
        }
    }

    /// Record that the hardware handle was acquired and the interface
    /// claimed: the session leaves `Closed` for `Opened`.
    pub fn mark_opened(&mut self)
        requires
            old(self).state is Closed,
        ensures
            final(self).state is Opened,
            final(self).encrypt_table == old(self).encrypt_table,
            final(self).encode_index == old(self).encode_index,
            final(self).decode_index == old(self).decode_index,
            final(self).cfg == old(self).cfg,
    {
        self.state = SessionState::Opened;
    }

    /// Record that the interface was released: any state returns to
    /// `Closed`.  Close is attempted on every exit path, so no
    /// precondition constrains the state.
    pub fn mark_closed(&mut self)
        ensures
            final(self).state is Closed,
            final(self).encrypt_table == old(self).encrypt_table,
            final(self).encode_index == old(self).encode_index,
            final(self).decode_index == old(self).decode_index,
            final(self).cfg == old(self).cfg,
    {
        self.state = SessionState::Closed;
    }

    /// Install the raw key table read from the device: unscramble it
    /// and reset both cipher cursors.
    pub fn install_key_table(&mut self, raw: &Vec<u8>)
        requires
            old(self).wf(),
            old(self).state is Opened,
            raw@.len() == 64,
        ensures
            final(self).wf(),
            final(self).encrypt_table@ == decoded_table(words_of_le_bytes(raw@)),
            final(self).encode_index == 0,
            final(self).decode_index == 0,
            final(self).cfg == old(self).cfg,
            final(self).state == old(self).state,
    {
        let mut words = le_bytes_to_words(raw);
        decode_encrypt_table(&mut words);
        self.encrypt_table = words;
        self.encode_index = 0;
        self.decode_index = 0;
    }

    /// Encode a word buffer in place for the device: XOR each word with
    /// the encode key at the encode cursor, advancing the cursor.
    pub fn encrypt(&mut self, buffer: &mut Vec<u16>)
        requires
            old(self).wf(),
        ensures
            final(self).wf(),
            final(buffer)@ == xor_stream(
                old(self).spec_encode_key(),
                old(self).encode_index as int,
                old(buffer)@,
            ),
            final(self).encode_index == (old(self).encode_index + old(buffer)@.len()) % 16,
            final(self).encrypt_table == old(self).encrypt_table,
            final(self).decode_index == old(self).decode_index,
            final(self).cfg == old(self).cfg,
            final(self).state == old(self).state,
    {
        let ghost key = self.spec_encode_key();
        let ghost start = self.encode_index as int;
        let ghost data0 = buffer@;
        let mut idx: usize = self.encode_index;
        let n = buffer.len();
        let mut i: usize = 0;
        while i < n
            invariant
                i <= n,
                n == buffer@.len(),
                buffer@.len() == data0.len(),
                self.encrypt_table@.len() == 32,
                key == self.encrypt_table@.subrange(0, 16),
                0 <= start < 16,
                idx < 16,
                idx == (start + i) % 16,
                forall|k: int| 0 <= k < i ==> buffer@[k] == (data0[k] ^ key[(start + k) % 16]),
                forall|k: int| i <= k < data0.len() ==> buffer@[k] == data0[k],
            decreases n - i,
        {
            let w = buffer[i];
            let kw = self.encrypt_table[idx];
            proof {
                assert(key[idx as int] == self.encrypt_table@[idx as int]);
            }
            buffer.set(i, w ^ kw);
            let ghost idx0 = idx;
            idx = (idx + 1) & 0x0f;
            proof {
                let s: usize = (idx0 + 1) as usize;
                assert(s & 0x0f == s % 16) by (bit_vector);
                assert(s == idx0 + 1);
                assert(((start + i) % 16 + 1) % 16 == (start + i + 1) % 16);
            }
            i = i + 1;
        }
        self.encode_index = idx;
        proof {
            assert(buffer@ =~= xor_stream(key, start, data0));
        }
    }

    /// Decode a word buffer read from the device in place: XOR each
    /// word with the decode key at the decode cursor, advancing the
    /// cursor.
    pub fn decrypt(&mut self, buffer: &mut Vec<u16>)
        requires
            old(self).wf(),
        ensures
            final(self).wf(),
            final(buffer)@ == xor_stream(
                old(self).spec_decode_key(),
                old(self).decode_index as int,
                old(buffer)@,
            ),
            final(self).decode_index == (old(self).decode_index + old(buffer)@.len()) % 16,
            final(self).encrypt_table == old(self).encrypt_table,
            final(self).encode_index == old(self).encode_index,
            final(self).cfg == old(self).cfg,
            final(self).state == old(self).state,
    {
        let ghost key = self.spec_decode_key();
        let ghost start = self.decode_index as int;
        let ghost data0 = buffer@;
        let mut idx: usize = self.decode_index;
        let n = buffer.len();
        let mut i: usize = 0;
        while i < n
            invariant
                i <= n,
                n == buffer@.len(),
                buffer@.len() == data0.len(),
                self.encrypt_table@.len() == 32,
                key == self.encrypt_table@.subrange(16, 32),
                0 <= start < 16,
                idx < 16,
                idx == (start + i) % 16,
                forall|k: int| 0 <= k < i ==> buffer@[k] == (data0[k] ^ key[(start + k) % 16]),
                forall|k: int| i <= k < data0.len() ==> buffer@[k] == data0[k],
            decreases n - i,
        {
            let w = buffer[i];
            let kw = self.encrypt_table[16 + idx];
            proof {
                assert(key[idx as int] == self.encrypt_table@[16 + idx as int]);
            }
            buffer.set(i, w ^ kw);
            let ghost idx0 = idx;
            idx = (idx + 1) & 0x0f;
            proof {
                let s: usize = (idx0 + 1) as usize;
                assert(s & 0x0f == s % 16) by (bit_vector);
                assert(s == idx0 + 1);
                assert(((start + i) % 16 + 1) % 16 == (start + i + 1) % 16);
            }
            i = i + 1;
        }
        self.decode_index = idx;
        proof {
            assert(buffer@ =~= xor_stream(key, start, data0));
        }
    }

    /// Install the raw 128-byte configuration response: decode it with
    /// the decode direction and store it as the current snapshot.  The
    /// 64 decoded words advance the decode cursor by a full number of
    /// periods, so it ends where it started.  A snapshot installed in
    /// `Opened` completes initialization.
    pub fn install_cfg(&mut self, raw: &Vec<u8>)
        requires
            old(self).wf(),
            old(self).state is Opened || old(self).state is Programming,
            raw@.len() == 128,
        ensures
            final(self).wf(),
            final(self).cfg.cfg@ == xor_stream(
                old(self).spec_decode_key(),
                old(self).decode_index as int,
                words_of_le_bytes(raw@),
            ),
            final(self).decode_index == old(self).decode_index,
            final(self).encrypt_table == old(self).encrypt_table,
            final(self).encode_index == old(self).encode_index,
            final(self).state == (if old(self).state is Opened {
                SessionState::Initialized
            } else {
                old(self).state
            }),
    {
        let mut words = le_bytes_to_words(raw);
        self.decrypt(&mut words);
        self.cfg = Cfg { cfg: words };
        if self.state == SessionState::Opened {
            self.state = SessionState::Initialized;
        }
    }

    /// Decode the bitstream lines and encode the words in place for the
    /// device, entering `Programming`.
    ///
    /// Succeeds exactly when the bitstream decodes — no invalid
    /// character — and the resulting data fits in a byte buffer; the
    /// returned bytes are the little-endian image of the encoded words,
    /// ready to stream to the data-out endpoint.  On failure nothing
    /// changes: no cursor moves and the session stays in `Initialized`.
    pub fn prepare_program_data(&mut self, lines: &Vec<Vec<u8>>) -> (r: Result<
        Vec<u8>,
        DeviceError,
    >)
        requires
            old(self).wf(),
            old(self).state is Initialized,
        ensures
            final(self).wf(),
            final(self).encrypt_table == old(self).encrypt_table,
            final(self).decode_index == old(self).decode_index,
            final(self).cfg == old(self).cfg,
            match r {
                Ok(bytes) => {
                    &&& file_words(views_of_lines(lines@)) matches Some(ws)
                    &&& bytes@ == le_bytes_of(xor_stream(
                        old(self).spec_encode_key(),
                        old(self).encode_index as int,
                        ws,
                    ))
                    &&& final(self).encode_index == (old(self).encode_index + ws.len()) % 16
                    &&& final(self).state is Programming
                },
                Err(e) => {
                    &&& *final(self) == *old(self)
                    &&& match file_words(views_of_lines(lines@)) {
                        None => {
                            &&& e matches DeviceError::OtherError(m)
                            &&& m@ == "Invalid character in bitfile"@
                        },
                        Some(ws) => {
                            &&& ws.len() * 2 > usize::MAX
                            &&& e matches DeviceError::OtherError(m)
                            &&& m@ == "Program data too large"@
                        },
                    }
                },
            },
    {
        let mut words = match decode_bitstream(lines) {
            Ok(w) => w,
            Err(e) => {
                return Err(e);
            },
        };
        if words.len() > usize::MAX / 2 {
            return Err(DeviceError::OtherError(String::from_str("Program data too large")));
        }
        self.encrypt(&mut words);
        let bytes = words_to_le_bytes(&words);
        self.state = SessionState::Programming;
        Ok(bytes)
    }

    /// The largest single programming burst the device accepts, in
    /// bytes: its FIFO capacity in words, times two.
    pub fn max_transfer_bytes(&self) -> (r: usize)
        requires
            self.wf(),
        ensures
            r == 2 * self.cfg.spec_fifo_size(),
    {
        (self.cfg.fifo_size() as usize) * 2
    }

    /// Check the device's own programmed latch in the freshly re-read
    /// snapshot.  The transfer having completed is not authoritative:
    /// only the latch is.  With the latch set the session reaches
    /// `Programmed`; otherwise a verification failure is reported and
    /// the state is unchanged.
    pub fn confirm_programmed(&mut self) -> (r: Result<(), DeviceError>)
        requires
            old(self).wf(),
            old(self).state is Programming,
        ensures
            final(self).wf(),
            final(self).encrypt_table == old(self).encrypt_table,
            final(self).encode_index == old(self).encode_index,
            final(self).decode_index == old(self).decode_index,
            final(self).cfg == old(self).cfg,
            if old(self).cfg.spec_is_programmed() {
                r is Ok && final(self).state is Programmed
            } else {
                (r matches Err(e) && e matches DeviceError::OtherError(m)
                    && m@ == "FPGA programming failed"@)
                    && final(self).state == old(self).state
            },
    {
        if self.cfg.is_programmed() {
            self.state = SessionState::Programmed;
            Ok(())
        } else {
            Err(DeviceError::OtherError(String::from_str("FPGA programming failed")))
        }
    }
}

/// The one-byte poll sent on the command-out endpoint to ask whether
/// the device is ready.
pub fn sync_request() -> (r: Vec<u8>)
    ensures
        r@ == seq![0u8],
{
    let mut v: Vec<u8> = Vec::new();
    v.push(0u8);
    proof {
        assert(v@ =~= seq![0u8]);
    }
    v
}

/// Whether the one-byte status read from the status-in endpoint means
/// the device is ready: any nonzero byte does.
pub fn sync_ready(status: u8) -> (r: bool)
    ensures
        r == (status != 0),
{
    status != 0
}

/// The two-byte activate acknowledgment written once the device
/// reports ready.
pub fn active_command() -> (r: Vec<u8>)
    ensures
        r@ == seq![0x01u8, 0x00u8],
{
    let mut v: Vec<u8> = Vec::new();
    v.push(0x01u8);
    v.push(0x00u8);
    proof {
        assert(v@ =~= seq![0x01u8, 0x00u8]);
    }
    v
}

/// The two-byte command asking for the configuration space.
pub fn read_cfg_command() -> (r: Vec<u8>)
    ensures
        r@ == seq![0x01u8, 0x01u8],
{
    let mut v: Vec<u8> = Vec::new();
    v.push(0x01u8);
    v.push(0x01u8);
    proof {
        assert(v@ =~= seq![0x01u8, 0x01u8]);
    }
    v
}

/// The two-byte command activating the FPGA programmer.
pub fn activate_programmer_command() -> (r: Vec<u8>)
    ensures
        r@ == seq![0x01u8, 0x02u8],
{
    let mut v: Vec<u8> = Vec::new();
    v.push(0x01u8);
    v.push(0x02u8);
    proof {
        assert(v@ =~= seq![0x01u8, 0x02u8]);
    }
    v
}

/// The two-byte command asking for the raw key table.
pub fn read_key_table_command() -> (r: Vec<u8>)
    ensures
        r@ == seq![0x01u8, 0x0fu8],
{
    let mut v: Vec<u8> = Vec::new();
    v.push(0x01u8);
    v.push(0x0fu8);
    proof {
        assert(v@ =~= seq![0x01u8, 0x0fu8]);
    }
    v
}

} // verus!
