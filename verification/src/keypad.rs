use vstd::prelude::*;

verus! {

/// The 16-key input state: one boolean flag per hexadecimal key code
/// 0x0-0xF. The state is owned by the host; the execution engine only
/// reads it.
pub struct Keypad {
    pub keys: Vec<bool>,
}

/// The logical key code a host keyboard character stands for, or `None` for
/// any character outside the fixed 16-character layout.
pub open spec fn spec_key_code(key: char) -> Option<u8> {
    if key == '0' {
        Some(0x0u8)
    } else if key == '1' {
        Some(0x1u8)
    } else if key == '2' {
        Some(0x2u8)
    } else if key == '3' {
        Some(0x3u8)
    } else if key == '4' {
        Some(0x4u8)
    } else if key == '5' {
        Some(0x5u8)
    } else if key == '6' {
        Some(0x6u8)
    } else if key == '7' {
        Some(0x7u8)
    } else if key == '8' {
        Some(0x8u8)
    } else if key == '9' {
        Some(0x9u8)
    } else if key == 'A' {
        Some(0xAu8)
    } else if key == 'B' {
        Some(0xBu8)
    } else if key == 'C' {
        Some(0xCu8)
    } else if key == 'D' {
        Some(0xDu8)
    } else if key == 'E' {
        Some(0xEu8)
    } else if key == 'F' {
        Some(0xFu8)
    } else {
        None
    }
}

/// The lowest-numbered pressed key at or above position `i`, or `None`.
pub open spec fn spec_first_down(keys: Seq<bool>, i: int) -> Option<u8>
    recommends
        keys.len() == 16,
    decreases 16 - i,
{
    if i < 0 || i >= 16 {
        None
    } else if keys[i] {
        Some(i as u8)
    } else {
        spec_first_down(keys, i + 1)
    }
}

impl Keypad {
    /// All sixteen key flags exist.
    pub open spec fn wf(self) -> bool {
        self.keys@.len() == 16
    }

    /// Whether the key named by `key` is currently pressed; a value outside
    /// 0x0-0xF names no key and counts as not pressed.
    pub open spec fn spec_pressed(self, key: u8) -> bool {
        key < 16 && self.keys@[key as int]
    }

    /// A keypad with no key pressed.
    pub fn new() -> (kp: Keypad)
        ensures
            kp.wf(),
            forall|k: int| 0 <= k < 16 ==> !kp.keys@[k],
    {
        let keys: Vec<bool> = vec![false; 16];
        Keypad { keys }
    }

    /// Marks the key that `key` stands for as pressed; characters outside
    /// the layout are ignored.
    pub fn key_down(&mut self, key: char)
        requires
            old(self).wf(),
        ensures
            final(self).wf(),
            match spec_key_code(key) {
                Some(k) => final(self).keys@ == old(self).keys@.update(k as int, true),
                None => final(self).keys@ == old(self).keys@,
            },
    {
        match key {
            '1' => self.keys[0x1] = true,
            '2' => self.keys[0x2] = true,
            '3' => self.keys[0x3] = true,
            'C' => self.keys[0xC] = true,
            '4' => self.keys[0x4] = true,
            '5' => self.keys[0x5] = true,
            '6' => self.keys[0x6] = true,
            'D' => self.keys[0xD] = true,
            '7' => self.keys[0x7] = true,
            '8' => self.keys[0x8] = true,
            '9' => self.keys[0x9] = true,
            'E' => self.keys[0xE] = true,
            'A' => self.keys[0xA] = true,
            '0' => self.keys[0x0] = true,
            'B' => self.keys[0xB] = true,
            'F' => self.keys[0xF] = true,
            _ => (),
        }
    }

    /// Marks the key that `key` stands for as released; characters outside
    /// the layout are ignored.
    pub fn key_up(&mut self, key: char)
        requires
            old(self).wf(),
        ensures
            final(self).wf(),
            match spec_key_code(key) {
                Some(k) => final(self).keys@ == old(self).keys@.update(k as int, false),
                None => final(self).keys@ == old(self).keys@,
            },
    {
        match key {
            '1' => self.keys[0x1] = false,
            '2' => self.keys[0x2] = false,
            '3' => self.keys[0x3] = false,
            'C' => self.keys[0xC] = false,
            '4' => self.keys[0x4] = false,
            '5' => self.keys[0x5] = false,
            '6' => self.keys[0x6] = false,
            'D' => self.keys[0xD] = false,
            '7' => self.keys[0x7] = false,
            '8' => self.keys[0x8] = false,
            '9' => self.keys[0x9] = false,
            'E' => self.keys[0xE] = false,
            'A' => self.keys[0xA] = false,
            '0' => self.keys[0x0] = false,
            'B' => self.keys[0xB] = false,
            'F' => self.keys[0xF] = false,
            _ => (),
        }
    }

    /// 1 if the key named by `key` is pressed, 0 otherwise; a value outside
    /// 0x0-0xF names no key and yields 0.
    pub fn key_state(&self, key: u8) -> (r: u8)
        requires
            self.wf(),
        ensures
            r == if self.spec_pressed(key) {
                1u8
            } else {
                0u8
            },
    {
        if key < 16 {
            if self.keys[key as usize] {
                1
            } else {
                0
            }
        } else {
            0
        }
    }

    /// The lowest-numbered currently pressed key, or `None` if no key is
    /// pressed.
    pub fn get_down_key(&self) -> (r: Option<u8>)
        requires
            self.wf(),
        ensures
            r == spec_first_down(self.keys@, 0),
    {
        let mut i: usize = 0;
        while i < 16
            invariant
                self.wf(),
                0 <= i <= 16,
                spec_first_down(self.keys@, 0) == spec_first_down(self.keys@, i as int),
            decreases 16 - i,
        {
            if self.keys[i] {
                return Some(i as u8);
            }
            i = i + 1;
        }
        None
    }
}

} // verus!
