//! DRV8873 H-bridge SPI framing and status decoding.
//!
//! A transaction sends one 16-bit word, most significant byte first, and
//! receives a status byte followed by a data byte. The transfer itself is
//! done by the caller on its SPI bus; this module builds the words and
//! decodes the replies.
use vstd::prelude::*;

pub mod reg;

verus! {

/// Bit `n` of `x` is set.
pub open spec fn bit_set(x: u8, n: u8) -> bool {
    (x >> n) & 1u8 == 1u8
}

proof fn lemma_mask_bit(x: u8, n: u8)
    requires
        n < 8,
    ensures
        ((x & (1u8 << n)) != 0) == bit_set(x, n),
{
    assert(((x & (1u8 << n)) != 0) == ((x >> n) & 1u8 == 1u8)) by (bit_vector)
        requires
            n < 8u8,
    ;
}

/// Status byte returned in the upper half of every reply.
#[derive(Clone, Copy, Debug)]
pub struct Status {
    raw: u8,
}

impl View for Status {
    type V = u8;

    closed spec fn view(&self) -> u8 {
        self.raw
    }
}

impl Status {
    /// The register value as read.
    pub fn from_raw(raw: u8) -> (r: Self)
        ensures
            r@ == raw,
    {
        Status { raw }
    }

    /// The raw register byte.
    pub fn raw(&self) -> (r: u8)
        ensures
            r == self@,
    {
        self.raw
    }

    /// Overtemperature warning.
    pub fn otw(&self) -> (r: bool)
        ensures
            r == bit_set(self@, 5),
    {
        proof {
            lemma_mask_bit(self.raw, 5);
        }
        (self.raw & (1u8 << 5u8)) != 0
    }

    /// Undervoltage lockout fault.
    pub fn uvlo(&self) -> (r: bool)
        ensures
            r == bit_set(self@, 4),
    {
        proof {
            lemma_mask_bit(self.raw, 4);
        }
        (self.raw & (1u8 << 4u8)) != 0
    }

    /// Charge-pump undervoltage fault.
    pub fn cpuv(&self) -> (r: bool)
        ensures
            r == bit_set(self@, 3),
    {
        proof {
            lemma_mask_bit(self.raw, 3);
        }
        (self.raw & (1u8 << 3u8)) != 0
    }

    /// Overcurrent condition.
    pub fn ocp(&self) -> (r: bool)
        ensures
            r == bit_set(self@, 2),
    {
        proof {
            lemma_mask_bit(self.raw, 2);
        }
        (self.raw & (1u8 << 2u8)) != 0
    }

    /// Overtemperature shutdown.
    pub fn tsd(&self) -> (r: bool)
        ensures
            r == bit_set(self@, 1),
    {
        proof {
            lemma_mask_bit(self.raw, 1);
        }
        (self.raw & (1u8 << 1u8)) != 0
    }

    /// Open-load detection.
    pub fn open_load(&self) -> (r: bool)
        ensures
            r == bit_set(self@, 0),
    {
        proof {
            lemma_mask_bit(self.raw, 0);
        }
        (self.raw & (1u8 << 0u8)) != 0
    }
}

/// FAULT status register.
#[derive(Clone, Copy, Debug)]
pub struct Fault {
    raw: u8,
}

impl View for Fault {
    type V = u8;

    closed spec fn view(&self) -> u8 {
        self.raw
    }
}

impl Fault {
    /// The register value as read.
    pub fn from_raw(raw: u8) -> (r: Self)
        ensures
            r@ == raw,
    {
        Fault { raw }
    }

    /// The raw register byte.
    pub fn raw(&self) -> (r: u8)
        ensures
            r == self@,
    {
        self.raw
    }

    /// Global fault flag; mirrors the nFAULT pin.
    pub fn fault(&self) -> (r: bool)
        ensures
            r == bit_set(self@, 6),
    {
        proof {
            lemma_mask_bit(self.raw, 6);
        }
        (self.raw & (1u8 << 6u8)) != 0
    }

    /// Overtemperature warning.
    pub fn otw(&self) -> (r: bool)
        ensures
            r == bit_set(self@, 5),
    {
        proof {
            lemma_mask_bit(self.raw, 5);
        }
        (self.raw & (1u8 << 5u8)) != 0
    }

    /// Undervoltage lockout fault.
    pub fn uvlo(&self) -> (r: bool)
        ensures
            r == bit_set(self@, 4),
    {
        proof {
            lemma_mask_bit(self.raw, 4);
        }
        (self.raw & (1u8 << 4u8)) != 0
    }

    /// Charge-pump undervoltage fault.
    pub fn cpuv(&self) -> (r: bool)
        ensures
            r == bit_set(self@, 3),
    {
        proof {
            lemma_mask_bit(self.raw, 3);
        }
        (self.raw & (1u8 << 3u8)) != 0
    }

    /// Overcurrent condition.
    pub fn ocp(&self) -> (r: bool)
        ensures
            r == bit_set(self@, 2),
    {
        proof {
            lemma_mask_bit(self.raw, 2);
        }
        (self.raw & (1u8 << 2u8)) != 0
    }

    /// Overtemperature shutdown.
    pub fn tsd(&self) -> (r: bool)
        ensures
            r == bit_set(self@, 1),
    {
        proof {
            lemma_mask_bit(self.raw, 1);
        }
        (self.raw & (1u8 << 1u8)) != 0
    }

    /// Open-load detection.
    pub fn open_load(&self) -> (r: bool)
        ensures
            r == bit_set(self@, 0),
    {
        proof {
            lemma_mask_bit(self.raw, 0);
        }
        (self.raw & (1u8 << 0u8)) != 0
    }
}

/// DIAG status register.
#[derive(Clone, Copy, Debug)]
pub struct Diag {
    raw: u8,
}

impl View for Diag {
    type V = u8;

    closed spec fn view(&self) -> u8 {
        self.raw
    }
}

impl Diag {
    /// The register value as read.
    pub fn from_raw(raw: u8) -> (r: Self)
        ensures
            r@ == raw,
    {
        Diag { raw }
    }

    /// The raw register byte.
    pub fn raw(&self) -> (r: u8)
        ensures
            r == self@,
    {
        self.raw
    }

    /// Open load on half bridge 1.
    pub fn ol1(&self) -> (r: bool)
        ensures
            r == bit_set(self@, 7),
    {
        proof {
            lemma_mask_bit(self.raw, 7);
        }
        (self.raw & (1u8 << 7u8)) != 0
    }

    /// Open load on half bridge 2.
    pub fn ol2(&self) -> (r: bool)
        ensures
            r == bit_set(self@, 6),
    {
        proof {
            lemma_mask_bit(self.raw, 6);
        }
        (self.raw & (1u8 << 6u8)) != 0
    }

    /// Half bridge 1 is in current regulation.
    pub fn itrip1(&self) -> (r: bool)
        ensures
            r == bit_set(self@, 5),
    {
        proof {
            lemma_mask_bit(self.raw, 5);
        }
        (self.raw & (1u8 << 5u8)) != 0
    }

    /// Half bridge 2 is in current regulation.
    pub fn itrip2(&self) -> (r: bool)
        ensures
            r == bit_set(self@, 4),
    {
        proof {
            lemma_mask_bit(self.raw, 4);
        }
        (self.raw & (1u8 << 4u8)) != 0
    }

    /// Overcurrent on the high-side FET of half bridge 1.
    pub fn ocp_h1(&self) -> (r: bool)
        ensures
            r == bit_set(self@, 3),
    {
        proof {
            lemma_mask_bit(self.raw, 3);
        }
        (self.raw & (1u8 << 3u8)) != 0
    }

    /// Overcurrent on the low-side FET of half bridge 1.
    pub fn ocp_l1(&self) -> (r: bool)
        ensures
            r == bit_set(self@, 2),
    {
        proof {
            lemma_mask_bit(self.raw, 2);
        }
        (self.raw & (1u8 << 2u8)) != 0
    }

    /// Overcurrent on the high-side FET of half bridge 2.
    pub fn ocp_h2(&self) -> (r: bool)
        ensures
            r == bit_set(self@, 1),
    {
        proof {
            lemma_mask_bit(self.raw, 1);
        }
        (self.raw & (1u8 << 1u8)) != 0
    }

    /// Overcurrent on the low-side FET of half bridge 2.
    pub fn ocp_l2(&self) -> (r: bool)
        ensures
            r == bit_set(self@, 0),
    {
        proof {
            lemma_mask_bit(self.raw, 0);
        }
        (self.raw & (1u8 << 0u8)) != 0
    }
}

/// Reply to one SPI transaction: the status byte and the register contents.
#[derive(Clone, Copy, Debug)]
pub struct Response {
    pub status: Status,
    pub data: u8,
}

/// The 16-bit command word: bit 14 set for a read, the 5-bit register address
/// in bits 13..9, and the data byte in bits 7..0.
pub open spec fn command_word(is_read: bool, addr: u8, data: u8) -> int {
    (if is_read { 0x4000int } else { 0 }) + (addr % 32) * 512 + data
}

/// Builds the command word for a register access. Address bits above the
/// fifth are ignored; the device ignores the data byte of a read.
pub fn build_word(is_read: bool, addr: u8, data: u8) -> (r: u16)
    ensures
        r as int == command_word(is_read, addr, data),
{
    let mut word: u16 = 0;
    if is_read {
        word = word | (1u16 << 14u16);
    }
    word = word | (((addr as u16) & 0x1F) << 9u16);
    word = word | data as u16;
    proof {
        let a = addr as u16;
        let d = data as u16;
        let rd: u16 = if is_read { 0x4000 } else { 0 };
        assert((rd | ((a & 0x1F) << 9u16) | d) == rd + (a & 0x1F) * 512 + d) by (bit_vector)
            requires
                rd == 0 || rd == 0x4000,
                d < 256,
        ;
        assert((a & 0x1F) == a % 32) by (bit_vector);
        assert((0u16 | (1u16 << 14u16)) == 0x4000) by (bit_vector);
    }
    word
}

/// The bytes to shift out for `word`, most significant first.
pub fn word_bytes(word: u16) -> (r: [u8; 2])
    ensures
        r@ == seq![(word / 256) as u8, (word % 256) as u8],
{
    let r = [(word >> 8u16) as u8, (word & 0xFF) as u8];
    proof {
        assert((word >> 8u16) == word / 256) by (bit_vector);
        assert((word & 0xFF) == word % 256) by (bit_vector);
    }
    assert(r@ =~= seq![(word / 256) as u8, (word % 256) as u8]);
    r
}

/// Decodes the two bytes shifted in during a transaction.
pub fn decode_response(buf: [u8; 2]) -> (r: Response)
    ensures
        r.status@ == buf@[0],
        r.data == buf@[1],
{
    Response { status: Status::from_raw(buf[0]), data: buf[1] }
}

} // verus!
