//! The deciding core of a Monte Carlo path tracer.
//!
//! A path tracer measures in floating point and decides by comparing what it
//! has measured. This library holds the deciding half: which root of a
//! quadratic is a hit, which of many hits is nearest, how a hierarchy of
//! bounding boxes is built and searched, what a material does with a ray, from
//! which strategy a direction is drawn, when a path ends, which rows a worker
//! renders and how the image is written.
//!
//! Every measured quantity is carried as a rank: a signed integer that orders
//! exactly as the measured value does (see `rtweekend::scalar`). The library
//! compares, selects, negates, indexes and counts ranks, and never does other
//! arithmetic on them. Where a decision needs a new measurement, the caller
//! supplies the arithmetic as a set of functions (`Kernel`, `Tools`, `Sampler`,
//! `Shader`), and the contracts say what is decided for whatever these
//! functions answer.

pub mod aabb;
pub mod camera;
pub mod hittable_list;
pub mod obj;
pub mod onb;
pub mod rtw_image;
pub mod rtweekend;
