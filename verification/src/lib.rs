//! The interaction and layout engine of a card table.
//!
//! A session holds a deck, a hand and five play slots on each side. The
//! engine is told, once per tick, where the pointer is, whether the left
//! button went down or came up, how large the window is and how much time
//! has passed. It answers with the state of the table: for every card its
//! zone, its hover flag and the transform to draw it with.
//!
//! # Numbers
//!
//! The engine computes in whole numbers only, so that every result is exact
//! and the same on every machine:
//!
//! * a length or a coordinate is a number of thousandths of a world unit;
//! * a scale is a number of millionths;
//! * an angle is a number of milliradians;
//! * a time is a number of microseconds, and a speed a number of
//!   thousandths per second.
//!
//! Division rounds toward negative infinity unless a function says
//! otherwise. Coordinates that would leave the world stop at its edge.
//!
//! # Parts
//!
//! * [`geometry`]: points, boxes, the window, the rows of the table and the
//!   anchors that glue elements to the window;
//! * [`card`], [`state`]: the cards, their zones, the deck, the hand and the
//!   slots;
//! * [`session`]: all of it together, with the invariant that ties each
//!   card's zone to the lists of the state and each slot's mark to the cards;
//! * [`hit`], [`hover`], [`drag`], [`deck`]: the pointer at work;
//! * [`layout`], [`animation`], [`anchor`]: where the cards go and how they
//!   get there;
//! * [`tick`]: the passes of one tick in their fixed order;
//! * [`laws`]: what the invariant means for cards and slots;
//! * [`mode`]: the screens around the game.
//!
//! Every function that changes a session states its effect as a function on
//! the session's mathematical content, [`session::Table`].

pub mod anchor;
pub mod animation;
pub mod arith;
pub mod card;
pub mod deck;
pub mod drag;
pub mod geometry;
pub mod hit;
pub mod hover;
pub mod laws;
pub mod layout;
pub mod mode;
pub mod session;
pub mod state;
pub mod tick;
