use std::collections::VecDeque;
use vstd::prelude::*;

use crate::common::Key;
use crate::map::{TileMap, XY};
use crate::sprite::Sprite;

verus! {

/// A map being explored: the map position aligned with the screen's focus, the sprites acting on
/// it, and pending messages.
pub struct Scene {
    pub focus: XY,
    pub map: TileMap,
    pub actors: Vec<Sprite>,
    pub text: VecDeque<String>,
    pub ended: bool,
    pub ticker: u8,
}

/// The focus after an arrow key: Up and Down move along rows, Left and Right along columns,
/// stopping at the edges of the coordinate range.
pub open spec fn moved_focus(f: XY, key: Key) -> XY {
    match key {
        Key::Up => (f.0, if f.1 > 0 { (f.1 - 1) as u16 } else { 0 }),
        Key::Down => (f.0, if f.1 < u16::MAX { (f.1 + 1) as u16 } else { u16::MAX }),
        Key::Left => (if f.0 > 0 { (f.0 - 1) as u16 } else { 0 }, f.1),
        Key::Right => (if f.0 < u16::MAX { (f.0 + 1) as u16 } else { u16::MAX }, f.1),
        _ => f,
    }
}

impl Scene {
    /// A scene on `map` focused on `focus`, with the party leader drawn as '@' and an opening
    /// message.
    pub fn new(map: TileMap, focus: XY) -> (r: Scene)
        ensures
            r.focus == focus,
            r.map == map,
            r.actors@.len() == 1,
            r.actors@[0].frames@ == seq!['@'],
            r.text@.len() == 1,
            r.text@[0]@ == "So, here you are."@,
            !r.ended,
            r.ticker == 0,
    {
        let mut text: VecDeque<String> = VecDeque::new();
        let party_leader = Sprite::new_solid('@');
        let mut actors: Vec<Sprite> = Vec::new();
        actors.push(party_leader);
        text.push_back(String::from_str("So, here you are."));
        Scene { focus, map, actors, text, ended: false, ticker: 0 }
    }

    /// The message waiting to be read, if any.
    pub fn get_text(&self) -> (r: Option<&String>)
        ensures
            match r {
                Some(t) => self.text@.len() > 0 && *t == self.text@[0],
                None => self.text@.len() == 0,
            },
    {
        if self.text.len() > 0 {
            Some(&self.text[0])
        } else {
            None
        }
    }

    /// Removes the message waiting to be read.
    pub fn pop_text(&mut self) -> (r: Option<String>)
        ensures
            match r {
                Some(t) => old(self).text@.len() > 0 && t == old(self).text@[0] && final(self).text@ == old(self).text@.drop_first(),
                None => old(self).text@.len() == 0 && final(self).text@ == old(self).text@,
            },
            final(self).focus == old(self).focus,
            final(self).ended == old(self).ended,
    {
        let r = self.text.pop_front();
        proof {
            if r is Some {
                assert(self.text@ =~= old(self).text@.drop_first());
            }
        }
        r
    }

    /// Moves the focus by one cell in the direction of an arrow key.
    pub fn party_command(&mut self, key: Key)
        ensures
            final(self).focus == moved_focus(old(self).focus, key),
            final(self).text == old(self).text,
            final(self).ended == old(self).ended,
    {
        match key {
            Key::Up => {
                self.focus.1 = if self.focus.1 > 0 { self.focus.1 - 1 } else { 0 };
            },
            Key::Down => {
                self.focus.1 = if self.focus.1 < u16::MAX { self.focus.1 + 1 } else { u16::MAX };
            },
            Key::Left => {
                self.focus.0 = if self.focus.0 > 0 { self.focus.0 - 1 } else { 0 };
            },
            Key::Right => {
                self.focus.0 = if self.focus.0 < u16::MAX { self.focus.0 + 1 } else { u16::MAX };
            },
            _ => {},
        }
    }

    /// Handles one key: a waiting message is dismissed, otherwise the key moves the focus.
    /// Returns whether the scene has ended.
    pub fn handle_input(&mut self, key: Key) -> (r: bool)
        ensures
            old(self).text@.len() > 0 ==> !r && final(self).text@ == old(self).text@.drop_first() && final(self).focus == old(self).focus,
            old(self).text@.len() == 0 ==> r == old(self).ended && final(self).focus == moved_focus(old(self).focus, key),
    {
        if self.text.len() > 0 {
            let _ = self.pop_text();
            return false;
        }
        self.party_command(key);
        self.ended
    }
}

} // verus!
