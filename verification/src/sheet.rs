//! The sprite-sheet model: named cells, each describing where a trimmed
//! sprite sits in the sheet image and how far the trim moved it.

use vstd::prelude::*;

verus! {

/// A rectangle of a sprite-sheet descriptor, as the asset pipeline writes
/// it: position `x`,`y` and size `w`,`h`.
#[derive(Clone, Copy, PartialEq, Eq, Structural, Debug)]
pub struct SheetRect {
    pub x: i16,
    pub y: i16,
    pub w: i16,
    pub h: i16,
}

/// One named cell of a sprite sheet.  `frame` is the sprite's rectangle in
/// the sheet image; `sprite_source_size` carries the trim offset that must
/// be added back when the sprite is drawn.
#[derive(Clone, Copy, PartialEq, Eq, Structural, Debug)]
pub struct Cell {
    pub frame: SheetRect,
    pub sprite_source_size: SheetRect,
}

/// A mapping from cell name to cell.  Lookup returns the first entry whose
/// name matches.
#[derive(Clone, Debug)]
pub struct Sheet {
    pub frames: Vec<(String, Cell)>,
}

/// The first cell in `frames` whose name reads `name`, if any.
pub open spec fn lookup_cell(frames: Seq<(String, Cell)>, name: Seq<char>) -> Option<Cell>
    decreases frames.len(),
{
    if frames.len() <= 0 {
        None
    } else if frames[0].0@ == name {
        Some(frames[0].1)
    } else {
        lookup_cell(frames.drop_first(), name)
    }
}

impl Sheet {
    pub open spec fn spec_cell(&self, name: Seq<char>) -> Option<Cell> {
        lookup_cell(self.frames@, name)
    }

    /// Look a cell up by name.
    pub fn cell(&self, name: &str) -> (r: Option<&Cell>)
        ensures
            match r {
                Some(c) => self.spec_cell(name@) == Some(*c),
                None => self.spec_cell(name@) is None,
            },
    {
        let key = String::from_str(name);
        let mut i: usize = 0;
        proof {
            assert(self.frames@.skip(0) =~= self.frames@);
        }
        while i < self.frames.len()
            invariant
                i <= self.frames@.len(),
                key@ == name@,
                lookup_cell(self.frames@, name@) == lookup_cell(
                    self.frames@.skip(i as int),
                    name@,
                ),
            decreases self.frames@.len() - i,
        {
            if self.frames[i].0 == key {
                assert(self.frames@.skip(i as int)[0] == self.frames@[i as int]);
                return Some(&self.frames[i].1);
            }
            proof {
                let rest = self.frames@.skip(i as int);
                assert(rest[0] == self.frames@[i as int]);
                assert(rest.drop_first() =~= self.frames@.skip(i as int + 1));
            }
            i = i + 1;
        }
        proof {
            assert(self.frames@.skip(i as int) =~= Seq::<(String, Cell)>::empty());
        }
        None
    }
}

/// A sprite sheet paired with the handle of its decoded image, so that draw
/// commands built from the sheet can name the image they want drawn.
#[derive(Clone, Debug)]
pub struct SpriteSheet {
    pub sheet: Sheet,
    pub image: u32,
}

impl SpriteSheet {
    pub fn new(sheet: Sheet, image: u32) -> (r: Self)
        ensures
            r.sheet == sheet,
            r.image == image,
    {
        SpriteSheet { sheet, image }
    }

    pub fn cell(&self, name: &str) -> (r: Option<&Cell>)
        ensures
            match r {
                Some(c) => self.sheet.spec_cell(name@) == Some(*c),
                None => self.sheet.spec_cell(name@) is None,
            },
    {
        self.sheet.cell(name)
    }
}

} // verus!
