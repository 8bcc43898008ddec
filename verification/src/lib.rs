//! Dario, a small 1980s-style platformer: its rules, proved with Verus.
//!
//! The save format and how saves accumulate ([`progress`]), the three stages
//! ([`level`]), the campaign and the decisions of play ([`game`]), the synthesized
//! theme's score ([`music`]) and the WAVE framing of sound ([`wave`]), the arcade
//! font ([`font`]), and the decisions of the browser build's two HTTP front ends
//! ([`web`], [`saves`]). Motion, drawing, audio output and I/O stay outside.
pub mod autosave;
pub mod font;
pub mod game;
pub mod level;
pub mod music;
pub mod progress;
pub mod saves;
pub mod text;
pub mod wave;
pub mod web;
pub mod world;
