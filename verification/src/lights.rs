//! A tree of lights: every light has a brightness and may have a light to
//! its left and one to its right. A list of instructions walks through the
//! tree from the root, growing it on the way, and sets brightnesses.

use vstd::prelude::*;

verus! {

/// One light with the lights that hang below it.
#[derive(Debug)]
pub struct Light {
    pub left: Option<Box<Light>>,
    pub right: Option<Box<Light>>,
    pub brightness: i32,
}

/// What the walk through the tree is told.
#[derive(Clone, Copy, Debug, PartialEq, Eq, Structural)]
pub enum Instruction {
    /// Set the brightness of the light where the walk stands.
    Brightness(i32),
    /// Step to the light on the left, which is made where there is none.
    Left,
    /// Step to the light on the right, which is made where there is none.
    Right,
    /// Go back to the root.
    Reset,
}

impl Light {
    /// The brightness of the light and of all lights below it, added up.
    pub open spec fn total(self) -> int
        decreases self,
    {
        self.brightness + (match self.left {
            Some(light) => light.total(),
            None => 0,
        }) + (match self.right {
            Some(light) => light.total(),
            None => 0,
        })
    }

    /// The number of lights: the light and all lights below it.
    pub open spec fn count(self) -> int
        decreases self,
    {
        1 + (match self.left {
            Some(light) => light.count(),
            None => 0,
        }) + (match self.right {
            Some(light) => light.count(),
            None => 0,
        })
    }

    /// A tree has at least one light.
    pub proof fn lemma_count_positive(self)
        ensures
            self.count() >= 1,
        decreases self,
    {
        match self.left {
            Some(light) => light.lemma_count_positive(),
            None => {},
        }
        match self.right {
            Some(light) => light.lemma_count_positive(),
            None => {},
        }
    }

    /// True when the sums that [`sum_and_count`] forms on its way through
    /// the tree all fit in 32 bits.
    pub open spec fn fits(self) -> bool
        decreases self,
    {
        let left = match self.left {
            Some(light) => light.total(),
            None => 0,
        };
        let right = match self.right {
            Some(light) => light.total(),
            None => 0,
        };
        &&& match self.left {
            Some(light) => light.fits(),
            None => true,
        }
        &&& match self.right {
            Some(light) => light.fits(),
            None => true,
        }
        &&& i32::MIN <= left + right <= i32::MAX
        &&& i32::MIN <= left + right + self.brightness <= i32::MAX
        &&& self.count() <= i32::MAX
    }

    /// A dark light with nothing below it.
    pub fn new() -> (light: Light)
        ensures
            light.left is None,
            light.right is None,
            light.brightness == 0,
    {
        Light { left: None, right: None, brightness: 0 }
    }

    /// The tree with the light at the end of the path, from place `from` of
    /// the path on, set to the brightness, if one is given; lights that the
    /// path leads through are made dark where they are missing. On the path
    /// `true` is a step to the right.
    pub open spec fn placed(self, path: Seq<bool>, from: int, brightness: Option<i32>) -> Light
        decreases path.len() - from,
    {
        if from < 0 || from >= path.len() {
            match brightness {
                Some(value) => Light { brightness: value, ..self },
                None => self,
            }
        } else if path[from] {
            let child = match self.right {
                Some(light) => *light,
                None => Light { left: None, right: None, brightness: 0 },
            };
            Light { right: Some(Box::new(child.placed(path, from + 1, brightness))), ..self }
        } else {
            let child = match self.left {
                Some(light) => *light,
                None => Light { left: None, right: None, brightness: 0 },
            };
            Light { left: Some(Box::new(child.placed(path, from + 1, brightness))), ..self }
        }
    }

    /// Walks down the path from place `from` on, makes the lights that are
    /// missing, and sets the light at the end to the brightness, if one is
    /// given.
    pub fn place(self, path: &Vec<bool>, from: usize, brightness: Option<i32>) -> (tree: Light)
        ensures
            tree == self.placed(path@, from as int, brightness),
        decreases path@.len() - from,
    {
        let mut light = self;
        if from >= path.len() {
            match brightness {
                Some(value) => {
                    light.brightness = value;
                },
                None => {},
            }
            light
        } else if path[from] {
            let child = match light.right {
                Some(below) => *below,
                None => Light::new(),
            };
            light.right = Some(Box::new(child.place(path, from + 1, brightness)));
            light
        } else {
            let child = match light.left {
                Some(below) => *below,
                None => Light::new(),
            };
            light.left = Some(Box::new(child.place(path, from + 1, brightness)));
            light
        }
    }
}

/// The brightness of all lights of the tree added up, and the number of
/// lights.
pub fn sum_and_count(light: &Light) -> (sums: (i32, i32))
    requires
        light.fits(),
    ensures
        sums.0 == light.total(),
        sums.1 == light.count(),
        sums.1 >= 1,
    decreases light,
{
    let left = match &light.left {
        Some(below) => sum_and_count(below),
        None => (0, 0),
    };
    let right = match &light.right {
        Some(below) => sum_and_count(below),
        None => (0, 0),
    };
    proof {
        light.lemma_count_positive();
    }
    (left.0 + right.0 + light.brightness, left.1 + right.1 + 1)
}

/// The brightness of all lights of the tree added up, and the number of
/// lights; nothing where a sum on the way does not fit in 32 bits.
pub fn checked_sum_and_count(light: &Light) -> (sums: Option<(i32, i32)>)
    ensures
        sums is Some <==> light.fits(),
        match sums {
            Some(pair) => pair.0 == light.total() && pair.1 == light.count(),
            None => true,
        },
    decreases light,
{
    let left = match &light.left {
        Some(below) => match checked_sum_and_count(below) {
            Some(sums) => sums,
            None => {
                return None;
            },
        },
        None => (0, 0),
    };
    let right = match &light.right {
        Some(below) => match checked_sum_and_count(below) {
            Some(sums) => sums,
            None => {
                return None;
            },
        },
        None => (0, 0),
    };
    proof {
        light.lemma_count_positive();
        if light.left is Some {
            light.left->0.lemma_count_positive();
        }
        if light.right is Some {
            light.right->0.lemma_count_positive();
        }
    }
    let both = match left.0.checked_add(right.0) {
        Some(sum) => sum,
        None => {
            return None;
        },
    };
    let total = match both.checked_add(light.brightness) {
        Some(sum) => sum,
        None => {
            return None;
        },
    };
    let lights = match left.1.checked_add(right.1) {
        Some(sum) => sum,
        None => {
            return None;
        },
    };
    let count = match lights.checked_add(1) {
        Some(sum) => sum,
        None => {
            return None;
        },
    };
    Some((total, count))
}

/// The tree and the path of the walk after the instructions have been
/// followed, one after the other.
pub open spec fn followed(tree: Light, path: Seq<bool>, instructions: Seq<Instruction>) -> (
    Light,
    Seq<bool>,
)
    decreases instructions.len(),
{
    if instructions.len() == 0 {
        (tree, path)
    } else {
        let (before, at) = followed(tree, path, instructions.drop_last());
        match instructions.last() {
            Instruction::Brightness(value) => (before.placed(at, 0, Some(value)), at),
            Instruction::Left => (before.placed(at.push(false), 0, None), at.push(false)),
            Instruction::Right => (before.placed(at.push(true), 0, None), at.push(true)),
            Instruction::Reset => (before, Seq::empty()),
        }
    }
}

/// Builds the tree that the instructions describe, starting from one dark
/// light.
pub fn build_tree(instructions: &Vec<Instruction>) -> (tree: Light)
    ensures
        tree == followed(
            Light { left: None, right: None, brightness: 0 },
            Seq::empty(),
            instructions@,
        ).0,
{
    let mut tree = Light::new();
    let mut path: Vec<bool> = Vec::new();
    let ghost start = tree;
    let mut i: usize = 0;
    proof {
        assert(instructions@.take(0) == Seq::<Instruction>::empty());
    }
    while i < instructions.len()
        invariant
            i <= instructions@.len(),
            start == (Light { left: None, right: None, brightness: 0 }),
            (tree, path@) == followed(start, Seq::empty(), instructions@.take(i as int)),
        decreases instructions@.len() - i,
    {
        proof {
            assert(instructions@.take(i + 1).drop_last() == instructions@.take(i as int));
            assert(instructions@.take(i + 1).last() == instructions@[i as int]);
        }
        match instructions[i] {
            Instruction::Brightness(value) => {
                tree = tree.place(&path, 0, Some(value));
            },
            Instruction::Left => {
                path.push(false);
                tree = tree.place(&path, 0, None);
            },
            Instruction::Right => {
                path.push(true);
                tree = tree.place(&path, 0, None);
            },
            Instruction::Reset => {
                path = Vec::new();
            },
        }
        i += 1;
    }
    proof {
        assert(instructions@.take(instructions@.len() as int) == instructions@);
    }
    tree
}

/// The mean brightness of the lights of the tree, rounded towards zero.
pub fn average_brightness(light: &Light) -> (mean: i32)
    requires
        light.fits(),
    ensures
        mean == if light.total() >= 0 {
            light.total() / light.count()
        } else {
            -((-light.total()) / light.count())
        },
{
    let (sum, count) = sum_and_count(light);
    sum / count
}

} // verus!
