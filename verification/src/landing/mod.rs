//! Landing-page sections: feature grid, hero, pricing table, testimonials.

pub mod feature_grid;
pub mod hero;
pub mod pricing_table;
pub mod testimonial_card;
