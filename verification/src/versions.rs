//! The per-version packet-id registry. Internal ids are version
//! independent and densely assigned per state and direction, following
//! the 1.12.2 (protocol 340) wire numbering; the 1.11.2 (protocol 316)
//! tables remap the ids that moved between the two versions.

use vstd::prelude::*;
use crate::{State, Direction};

verus! {

/// Protocol 316, play state, serverbound: wire id to internal id.
pub open spec fn spec_play_sb_316_to_internal(id: i32) -> Option<i32> {
    if id == 0x00 {
        Some(0x00)
    } else if id == 0x01 {
        Some(0x01)
    } else if id == 0x02 {
        Some(0x02)
    } else if id == 0x03 {
        Some(0x03)
    } else if id == 0x04 {
        Some(0x04)
    } else if id == 0x05 {
        Some(0x05)
    } else if id == 0x06 {
        Some(0x06)
    } else if id == 0x07 {
        Some(0x07)
    } else if id == 0x08 {
        Some(0x08)
    } else if id == 0x09 {
        Some(0x09)
    } else if id == 0x0a {
        Some(0x0a)
    } else if id == 0x0b {
        Some(0x0b)
    } else if id == 0x0c {
        Some(0x0d)
    } else if id == 0x0d {
        Some(0x0e)
    } else if id == 0x0e {
        Some(0x0f)
    } else if id == 0x0f {
        Some(0x0c)
    } else if id == 0x10 {
        Some(0x10)
    } else if id == 0x11 {
        Some(0x11)
    } else if id == 0x12 {
        Some(0x13)
    } else if id == 0x13 {
        Some(0x14)
    } else if id == 0x14 {
        Some(0x15)
    } else if id == 0x15 {
        Some(0x16)
    } else if id == 0x16 {
        Some(0x18)
    } else if id == 0x17 {
        Some(0x1a)
    } else if id == 0x18 {
        Some(0x1b)
    } else if id == 0x19 {
        Some(0x1c)
    } else if id == 0x1a {
        Some(0x1d)
    } else if id == 0x1b {
        Some(0x1e)
    } else if id == 0x1c {
        Some(0x1f)
    } else if id == 0x1d {
        Some(0x20)
    } else {
        None
    }
}

/// Protocol 316, play state, serverbound: internal id to wire id.
pub open spec fn spec_play_sb_316_to_wire(id: i32) -> Option<i32> {
    if id == 0x00 {
        Some(0x00)
    } else if id == 0x01 {
        Some(0x01)
    } else if id == 0x02 {
        Some(0x02)
    } else if id == 0x03 {
        Some(0x03)
    } else if id == 0x04 {
        Some(0x04)
    } else if id == 0x05 {
        Some(0x05)
    } else if id == 0x06 {
        Some(0x06)
    } else if id == 0x07 {
        Some(0x07)
    } else if id == 0x08 {
        Some(0x08)
    } else if id == 0x09 {
        Some(0x09)
    } else if id == 0x0a {
        Some(0x0a)
    } else if id == 0x0b {
        Some(0x0b)
    } else if id == 0x0c {
        Some(0x0f)
    } else if id == 0x0d {
        Some(0x0c)
    } else if id == 0x0e {
        Some(0x0d)
    } else if id == 0x0f {
        Some(0x0e)
    } else if id == 0x10 {
        Some(0x10)
    } else if id == 0x11 {
        Some(0x11)
    } else if id == 0x13 {
        Some(0x12)
    } else if id == 0x14 {
        Some(0x13)
    } else if id == 0x15 {
        Some(0x14)
    } else if id == 0x16 {
        Some(0x15)
    } else if id == 0x18 {
        Some(0x16)
    } else if id == 0x1a {
        Some(0x17)
    } else if id == 0x1b {
        Some(0x18)
    } else if id == 0x1c {
        Some(0x19)
    } else if id == 0x1d {
        Some(0x1a)
    } else if id == 0x1e {
        Some(0x1b)
    } else if id == 0x1f {
        Some(0x1c)
    } else if id == 0x20 {
        Some(0x1d)
    } else {
        None
    }
}

/// Protocol 316, play state, clientbound: wire id to internal id.
pub open spec fn spec_play_cb_316_to_internal(id: i32) -> Option<i32> {
    if id == 0x00 {
        Some(0x00)
    } else if id == 0x01 {
        Some(0x01)
    } else if id == 0x02 {
        Some(0x02)
    } else if id == 0x03 {
        Some(0x03)
    } else if id == 0x04 {
        Some(0x04)
    } else if id == 0x05 {
        Some(0x05)
    } else if id == 0x06 {
        Some(0x06)
    } else if id == 0x07 {
        Some(0x07)
    } else if id == 0x08 {
        Some(0x08)
    } else if id == 0x09 {
        Some(0x09)
    } else if id == 0x0a {
        Some(0x0a)
    } else if id == 0x0b {
        Some(0x0b)
    } else if id == 0x0c {
        Some(0x0c)
    } else if id == 0x0d {
        Some(0x0d)
    } else if id == 0x0e {
        Some(0x0e)
    } else if id == 0x0f {
        Some(0x0f)
    } else if id == 0x10 {
        Some(0x10)
    } else if id == 0x11 {
        Some(0x11)
    } else if id == 0x12 {
        Some(0x12)
    } else if id == 0x13 {
        Some(0x13)
    } else if id == 0x14 {
        Some(0x14)
    } else if id == 0x15 {
        Some(0x15)
    } else if id == 0x16 {
        Some(0x16)
    } else if id == 0x17 {
        Some(0x17)
    } else if id == 0x18 {
        Some(0x18)
    } else if id == 0x19 {
        Some(0x19)
    } else if id == 0x1a {
        Some(0x1a)
    } else if id == 0x1b {
        Some(0x1b)
    } else if id == 0x1c {
        Some(0x1c)
    } else if id == 0x1d {
        Some(0x1d)
    } else if id == 0x1e {
        Some(0x1e)
    } else if id == 0x1f {
        Some(0x1f)
    } else if id == 0x20 {
        Some(0x20)
    } else if id == 0x21 {
        Some(0x21)
    } else if id == 0x22 {
        Some(0x22)
    } else if id == 0x23 {
        Some(0x23)
    } else if id == 0x24 {
        Some(0x24)
    } else if id == 0x25 {
        Some(0x26)
    } else if id == 0x26 {
        Some(0x27)
    } else if id == 0x27 {
        Some(0x28)
    } else if id == 0x28 {
        Some(0x25)
    } else if id == 0x29 {
        Some(0x29)
    } else if id == 0x2a {
        Some(0x2a)
    } else if id == 0x2b {
        Some(0x2c)
    } else if id == 0x2c {
        Some(0x2d)
    } else if id == 0x2d {
        Some(0x2e)
    } else if id == 0x2e {
        Some(0x2f)
    } else if id == 0x2f {
        Some(0x30)
    } else if id == 0x30 {
        Some(0x32)
    } else if id == 0x31 {
        Some(0x33)
    } else if id == 0x32 {
        Some(0x34)
    } else if id == 0x33 {
        Some(0x35)
    } else if id == 0x34 {
        Some(0x36)
    } else if id == 0x35 {
        Some(0x38)
    } else if id == 0x36 {
        Some(0x39)
    } else if id == 0x37 {
        Some(0x3a)
    } else if id == 0x38 {
        Some(0x3b)
    } else if id == 0x39 {
        Some(0x3c)
    } else if id == 0x3a {
        Some(0x3d)
    } else if id == 0x3b {
        Some(0x3e)
    } else if id == 0x3c {
        Some(0x3f)
    } else if id == 0x3d {
        Some(0x40)
    } else if id == 0x3e {
        Some(0x41)
    } else if id == 0x3f {
        Some(0x42)
    } else if id == 0x40 {
        Some(0x43)
    } else if id == 0x41 {
        Some(0x44)
    } else if id == 0x42 {
        Some(0x45)
    } else if id == 0x43 {
        Some(0x46)
    } else if id == 0x44 {
        Some(0x47)
    } else if id == 0x45 {
        Some(0x48)
    } else if id == 0x46 {
        Some(0x49)
    } else if id == 0x47 {
        Some(0x4a)
    } else if id == 0x48 {
        Some(0x4b)
    } else if id == 0x49 {
        Some(0x4c)
    } else if id == 0x4a {
        Some(0x4e)
    } else if id == 0x4b {
        Some(0x4f)
    } else {
        None
    }
}

/// Protocol 316, play state, clientbound: internal id to wire id.
pub open spec fn spec_play_cb_316_to_wire(id: i32) -> Option<i32> {
    if id == 0x00 {
        Some(0x00)
    } else if id == 0x01 {
        Some(0x01)
    } else if id == 0x02 {
        Some(0x02)
    } else if id == 0x03 {
        Some(0x03)
    } else if id == 0x04 {
        Some(0x04)
    } else if id == 0x05 {
        Some(0x05)
    } else if id == 0x06 {
        Some(0x06)
    } else if id == 0x07 {
        Some(0x07)
    } else if id == 0x08 {
        Some(0x08)
    } else if id == 0x09 {
        Some(0x09)
    } else if id == 0x0a {
        Some(0x0a)
    } else if id == 0x0b {
        Some(0x0b)
    } else if id == 0x0c {
        Some(0x0c)
    } else if id == 0x0d {
        Some(0x0d)
    } else if id == 0x0e {
        Some(0x0e)
    } else if id == 0x0f {
        Some(0x0f)
    } else if id == 0x10 {
        Some(0x10)
    } else if id == 0x11 {
        Some(0x11)
    } else if id == 0x12 {
        Some(0x12)
    } else if id == 0x13 {
        Some(0x13)
    } else if id == 0x14 {
        Some(0x14)
    } else if id == 0x15 {
        Some(0x15)
    } else if id == 0x16 {
        Some(0x16)
    } else if id == 0x17 {
        Some(0x17)
    } else if id == 0x18 {
        Some(0x18)
    } else if id == 0x19 {
        Some(0x19)
    } else if id == 0x1a {
        Some(0x1a)
    } else if id == 0x1b {
        Some(0x1b)
    } else if id == 0x1c {
        Some(0x1c)
    } else if id == 0x1d {
        Some(0x1d)
    } else if id == 0x1e {
        Some(0x1e)
    } else if id == 0x1f {
        Some(0x1f)
    } else if id == 0x20 {
        Some(0x20)
    } else if id == 0x21 {
        Some(0x21)
    } else if id == 0x22 {
        Some(0x22)
    } else if id == 0x23 {
        Some(0x23)
    } else if id == 0x24 {
        Some(0x24)
    } else if id == 0x25 {
        Some(0x28)
    } else if id == 0x26 {
        Some(0x25)
    } else if id == 0x27 {
        Some(0x26)
    } else if id == 0x28 {
        Some(0x27)
    } else if id == 0x29 {
        Some(0x29)
    } else if id == 0x2a {
        Some(0x2a)
    } else if id == 0x2c {
        Some(0x2b)
    } else if id == 0x2d {
        Some(0x2c)
    } else if id == 0x2e {
        Some(0x2d)
    } else if id == 0x2f {
        Some(0x2e)
    } else if id == 0x30 {
        Some(0x2f)
    } else if id == 0x32 {
        Some(0x30)
    } else if id == 0x33 {
        Some(0x31)
    } else if id == 0x34 {
        Some(0x32)
    } else if id == 0x35 {
        Some(0x33)
    } else if id == 0x36 {
        Some(0x34)
    } else if id == 0x38 {
        Some(0x35)
    } else if id == 0x39 {
        Some(0x36)
    } else if id == 0x3a {
        Some(0x37)
    } else if id == 0x3b {
        Some(0x38)
    } else if id == 0x3c {
        Some(0x39)
    } else if id == 0x3d {
        Some(0x3a)
    } else if id == 0x3e {
        Some(0x3b)
    } else if id == 0x3f {
        Some(0x3c)
    } else if id == 0x40 {
        Some(0x3d)
    } else if id == 0x41 {
        Some(0x3e)
    } else if id == 0x42 {
        Some(0x3f)
    } else if id == 0x43 {
        Some(0x40)
    } else if id == 0x44 {
        Some(0x41)
    } else if id == 0x45 {
        Some(0x42)
    } else if id == 0x46 {
        Some(0x43)
    } else if id == 0x47 {
        Some(0x44)
    } else if id == 0x48 {
        Some(0x45)
    } else if id == 0x49 {
        Some(0x46)
    } else if id == 0x4a {
        Some(0x47)
    } else if id == 0x4b {
        Some(0x48)
    } else if id == 0x4c {
        Some(0x49)
    } else if id == 0x4e {
        Some(0x4a)
    } else if id == 0x4f {
        Some(0x4b)
    } else {
        None
    }
}

/// As [`spec_play_sb_316_to_internal`].
fn play_sb_316_to_internal(id: i32) -> (r: Option<i32>)
    ensures
        r == spec_play_sb_316_to_internal(id),
{
    match id {
        0x00 => Some(0x00),
        0x01 => Some(0x01),
        0x02 => Some(0x02),
        0x03 => Some(0x03),
        0x04 => Some(0x04),
        0x05 => Some(0x05),
        0x06 => Some(0x06),
        0x07 => Some(0x07),
        0x08 => Some(0x08),
        0x09 => Some(0x09),
        0x0a => Some(0x0a),
        0x0b => Some(0x0b),
        0x0c => Some(0x0d),
        0x0d => Some(0x0e),
        0x0e => Some(0x0f),
        0x0f => Some(0x0c),
        0x10 => Some(0x10),
        0x11 => Some(0x11),
        0x12 => Some(0x13),
        0x13 => Some(0x14),
        0x14 => Some(0x15),
        0x15 => Some(0x16),
        0x16 => Some(0x18),
        0x17 => Some(0x1a),
        0x18 => Some(0x1b),
        0x19 => Some(0x1c),
        0x1a => Some(0x1d),
        0x1b => Some(0x1e),
        0x1c => Some(0x1f),
        0x1d => Some(0x20),
        _ => None,
    }
}

/// As [`spec_play_sb_316_to_wire`].
fn play_sb_316_to_wire(id: i32) -> (r: Option<i32>)
    ensures
        r == spec_play_sb_316_to_wire(id),
{
    match id {
        0x00 => Some(0x00),
        0x01 => Some(0x01),
        0x02 => Some(0x02),
        0x03 => Some(0x03),
        0x04 => Some(0x04),
        0x05 => Some(0x05),
        0x06 => Some(0x06),
        0x07 => Some(0x07),
        0x08 => Some(0x08),
        0x09 => Some(0x09),
        0x0a => Some(0x0a),
        0x0b => Some(0x0b),
        0x0c => Some(0x0f),
        0x0d => Some(0x0c),
        0x0e => Some(0x0d),
        0x0f => Some(0x0e),
        0x10 => Some(0x10),
        0x11 => Some(0x11),
        0x13 => Some(0x12),
        0x14 => Some(0x13),
        0x15 => Some(0x14),
        0x16 => Some(0x15),
        0x18 => Some(0x16),
        0x1a => Some(0x17),
        0x1b => Some(0x18),
        0x1c => Some(0x19),
        0x1d => Some(0x1a),
        0x1e => Some(0x1b),
        0x1f => Some(0x1c),
        0x20 => Some(0x1d),
        _ => None,
    }
}

/// As [`spec_play_cb_316_to_internal`].
fn play_cb_316_to_internal(id: i32) -> (r: Option<i32>)
    ensures
        r == spec_play_cb_316_to_internal(id),
{
    match id {
        0x00 => Some(0x00),
        0x01 => Some(0x01),
        0x02 => Some(0x02),
        0x03 => Some(0x03),
        0x04 => Some(0x04),
        0x05 => Some(0x05),
        0x06 => Some(0x06),
        0x07 => Some(0x07),
        0x08 => Some(0x08),
        0x09 => Some(0x09),
        0x0a => Some(0x0a),
        0x0b => Some(0x0b),
        0x0c => Some(0x0c),
        0x0d => Some(0x0d),
        0x0e => Some(0x0e),
        0x0f => Some(0x0f),
        0x10 => Some(0x10),
        0x11 => Some(0x11),
        0x12 => Some(0x12),
        0x13 => Some(0x13),
        0x14 => Some(0x14),
        0x15 => Some(0x15),
        0x16 => Some(0x16),
        0x17 => Some(0x17),
        0x18 => Some(0x18),
        0x19 => Some(0x19),
        0x1a => Some(0x1a),
        0x1b => Some(0x1b),
        0x1c => Some(0x1c),
        0x1d => Some(0x1d),
        0x1e => Some(0x1e),
        0x1f => Some(0x1f),
        0x20 => Some(0x20),
        0x21 => Some(0x21),
        0x22 => Some(0x22),
        0x23 => Some(0x23),
        0x24 => Some(0x24),
        0x25 => Some(0x26),
        0x26 => Some(0x27),
        0x27 => Some(0x28),
        0x28 => Some(0x25),
        0x29 => Some(0x29),
        0x2a => Some(0x2a),
        0x2b => Some(0x2c),
        0x2c => Some(0x2d),
        0x2d => Some(0x2e),
        0x2e => Some(0x2f),
        0x2f => Some(0x30),
        0x30 => Some(0x32),
        0x31 => Some(0x33),
        0x32 => Some(0x34),
        0x33 => Some(0x35),
        0x34 => Some(0x36),
        0x35 => Some(0x38),
        0x36 => Some(0x39),
        0x37 => Some(0x3a),
        0x38 => Some(0x3b),
        0x39 => Some(0x3c),
        0x3a => Some(0x3d),
        0x3b => Some(0x3e),
        0x3c => Some(0x3f),
        0x3d => Some(0x40),
        0x3e => Some(0x41),
        0x3f => Some(0x42),
        0x40 => Some(0x43),
        0x41 => Some(0x44),
        0x42 => Some(0x45),
        0x43 => Some(0x46),
        0x44 => Some(0x47),
        0x45 => Some(0x48),
        0x46 => Some(0x49),
        0x47 => Some(0x4a),
        0x48 => Some(0x4b),
        0x49 => Some(0x4c),
        0x4a => Some(0x4e),
        0x4b => Some(0x4f),
        _ => None,
    }
}

/// As [`spec_play_cb_316_to_wire`].
fn play_cb_316_to_wire(id: i32) -> (r: Option<i32>)
    ensures
        r == spec_play_cb_316_to_wire(id),
{
    match id {
        0x00 => Some(0x00),
        0x01 => Some(0x01),
        0x02 => Some(0x02),
        0x03 => Some(0x03),
        0x04 => Some(0x04),
        0x05 => Some(0x05),
        0x06 => Some(0x06),
        0x07 => Some(0x07),
        0x08 => Some(0x08),
        0x09 => Some(0x09),
        0x0a => Some(0x0a),
        0x0b => Some(0x0b),
        0x0c => Some(0x0c),
        0x0d => Some(0x0d),
        0x0e => Some(0x0e),
        0x0f => Some(0x0f),
        0x10 => Some(0x10),
        0x11 => Some(0x11),
        0x12 => Some(0x12),
        0x13 => Some(0x13),
        0x14 => Some(0x14),
        0x15 => Some(0x15),
        0x16 => Some(0x16),
        0x17 => Some(0x17),
        0x18 => Some(0x18),
        0x19 => Some(0x19),
        0x1a => Some(0x1a),
        0x1b => Some(0x1b),
        0x1c => Some(0x1c),
        0x1d => Some(0x1d),
        0x1e => Some(0x1e),
        0x1f => Some(0x1f),
        0x20 => Some(0x20),
        0x21 => Some(0x21),
        0x22 => Some(0x22),
        0x23 => Some(0x23),
        0x24 => Some(0x24),
        0x25 => Some(0x28),
        0x26 => Some(0x25),
        0x27 => Some(0x26),
        0x28 => Some(0x27),
        0x29 => Some(0x29),
        0x2a => Some(0x2a),
        0x2c => Some(0x2b),
        0x2d => Some(0x2c),
        0x2e => Some(0x2d),
        0x2f => Some(0x2e),
        0x30 => Some(0x2f),
        0x32 => Some(0x30),
        0x33 => Some(0x31),
        0x34 => Some(0x32),
        0x35 => Some(0x33),
        0x36 => Some(0x34),
        0x38 => Some(0x35),
        0x39 => Some(0x36),
        0x3a => Some(0x37),
        0x3b => Some(0x38),
        0x3c => Some(0x39),
        0x3d => Some(0x3a),
        0x3e => Some(0x3b),
        0x3f => Some(0x3c),
        0x40 => Some(0x3d),
        0x41 => Some(0x3e),
        0x42 => Some(0x3f),
        0x43 => Some(0x40),
        0x44 => Some(0x41),
        0x45 => Some(0x42),
        0x46 => Some(0x43),
        0x47 => Some(0x44),
        0x48 => Some(0x45),
        0x49 => Some(0x46),
        0x4a => Some(0x47),
        0x4b => Some(0x48),
        0x4c => Some(0x49),
        0x4e => Some(0x4a),
        0x4f => Some(0x4b),
        _ => None,
    }
}

/// Wire id to internal id (or back, with `to_internal` false) for one
/// supported protocol version, state and direction. `None` where no
/// packet has that id.
pub open spec fn spec_translate(
    version: i32,
    state: State,
    dir: Direction,
    id: i32,
    to_internal: bool,
) -> Option<i32> {
    if version != 340 && version != 316 {
        None
    } else {
        match state {
            State::Handshaking => match dir {
                Direction::Serverbound => if id == 0x00 {
                    Some(0x00)
                } else {
                    None
                },
                Direction::Clientbound => None,
            },
            State::Status => if 0x00 <= id <= 0x01 {
                Some(id)
            } else {
                None
            },
            State::Login => match dir {
                Direction::Serverbound => if 0x00 <= id <= 0x01 {
                    Some(id)
                } else {
                    None
                },
                Direction::Clientbound => if 0x00 <= id <= 0x03 {
                    Some(id)
                } else {
                    None
                },
            },
            State::Play => if version == 340 {
                match dir {
                    Direction::Serverbound => if 0x00 <= id <= 0x20 {
                        Some(id)
                    } else {
                        None
                    },
                    Direction::Clientbound => if 0x00 <= id <= 0x4f {
                        Some(id)
                    } else {
                        None
                    },
                }
            } else {
                match dir {
                    Direction::Serverbound => if to_internal {
                        spec_play_sb_316_to_internal(id)
                    } else {
                        spec_play_sb_316_to_wire(id)
                    },
                    Direction::Clientbound => if to_internal {
                        spec_play_cb_316_to_internal(id)
                    } else {
                        spec_play_cb_316_to_wire(id)
                    },
                }
            },
        }
    }
}

/// Total translation: `None` for an unsupported version or an id that no
/// packet has in that state and direction.
pub fn try_translate_internal_packet_id_for_version(
    version: i32,
    state: State,
    dir: Direction,
    id: i32,
    to_internal: bool,
) -> (r: Option<i32>)
    ensures
        r == spec_translate(version, state, dir, id, to_internal),
{
    if version != 340 && version != 316 {
        return None;
    }
    match state {
        State::Handshaking => match dir {
            Direction::Serverbound => if id == 0x00 {
                Some(0x00)
            } else {
                None
            },
            Direction::Clientbound => None,
        },
        State::Status => if 0x00 <= id && id <= 0x01 {
            Some(id)
        } else {
            None
        },
        State::Login => match dir {
            Direction::Serverbound => if 0x00 <= id && id <= 0x01 {
                Some(id)
            } else {
                None
            },
            Direction::Clientbound => if 0x00 <= id && id <= 0x03 {
                Some(id)
            } else {
                None
            },
        },
        State::Play => if version == 340 {
            match dir {
                Direction::Serverbound => if 0x00 <= id && id <= 0x20 {
                    Some(id)
                } else {
                    None
                },
                Direction::Clientbound => if 0x00 <= id && id <= 0x4f {
                    Some(id)
                } else {
                    None
                },
            }
        } else {
            match dir {
                Direction::Serverbound => if to_internal {
                    play_sb_316_to_internal(id)
                } else {
                    play_sb_316_to_wire(id)
                },
                Direction::Clientbound => if to_internal {
                    play_cb_316_to_internal(id)
                } else {
                    play_cb_316_to_wire(id)
                },
            }
        },
    }
}

/// As [`try_translate_internal_packet_id_for_version`], for an id that is
/// known to be defined.
pub fn translate_internal_packet_id_for_version(
    version: i32,
    state: State,
    dir: Direction,
    id: i32,
    to_internal: bool,
) -> (r: i32)
    requires
        spec_translate(version, state, dir, id, to_internal) is Some,
    ensures
        spec_translate(version, state, dir, id, to_internal) == Some(r),
{
    match try_translate_internal_packet_id_for_version(version, state, dir, id, to_internal) {
        Some(r) => r,
        None => 0,
    }
}

/// The wire-to-internal map of the default protocol version, total form.
pub fn try_translate_packet_id(state: State, dir: Direction, id: i32) -> (r: Option<i32>)
    ensures
        r == spec_translate(340, state, dir, id, true),
{
    try_translate_internal_packet_id_for_version(340, state, dir, id, true)
}

/// The wire-to-internal map of the default protocol version, for an id
/// that is known to be defined in the given state and direction.
pub fn translate_packet_id(state: State, dir: Direction, id: i32) -> (r: i32)
    requires
        spec_translate(340, state, dir, id, true) is Some,
    ensures
        spec_translate(340, state, dir, id, true) == Some(r),
{
    translate_internal_packet_id_for_version(340, state, dir, id, true)
}

proof fn lemma_play_sb_316_roundtrip(id: i32)
    ensures
        spec_play_sb_316_to_internal(id) matches Some(i) ==> spec_play_sb_316_to_wire(i)
            == Some(id),
        spec_play_sb_316_to_wire(id) matches Some(w) ==> spec_play_sb_316_to_internal(w)
            == Some(id),
{
}

#[verifier::rlimit(50)]
proof fn lemma_play_cb_316_roundtrip(id: i32)
    ensures
        spec_play_cb_316_to_internal(id) matches Some(i) ==> spec_play_cb_316_to_wire(i)
            == Some(id),
        spec_play_cb_316_to_wire(id) matches Some(w) ==> spec_play_cb_316_to_internal(w)
            == Some(id),
{
}

/// Law: for each supported protocol version and every defined
/// combination of state, direction and wire id, translating to the
/// internal id and back yields the wire id, and conversely.
pub proof fn lemma_translate_roundtrip(version: i32, state: State, dir: Direction, id: i32)
    requires
        version == 340 || version == 316,
    ensures
        spec_translate(version, state, dir, id, true) matches Some(i) ==> spec_translate(
            version,
            state,
            dir,
            i,
            false,
        ) == Some(id),
        spec_translate(version, state, dir, id, false) matches Some(w) ==> spec_translate(
            version,
            state,
            dir,
            w,
            true,
        ) == Some(id),
{
    if version == 316 {
        match state {
            State::Play => match dir {
                Direction::Serverbound => lemma_play_sb_316_roundtrip(id),
                Direction::Clientbound => lemma_play_cb_316_roundtrip(id),
            },
            _ => {},
        }
    }
}

} // verus!
