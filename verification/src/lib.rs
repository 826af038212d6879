//! Market conventions, curve configuration and bootstrap planning for
//! quantitative finance, with verified contracts.
pub mod errors;
pub mod text;
pub mod currency;
pub mod marketindex;
pub mod quote;
pub mod cashflows;
pub mod time;
pub mod collateral;
pub mod bootstrapdiscountpolicy;
pub mod instruments;
pub mod calibration;
pub mod indexset;
pub mod curveconfiguration;
pub mod depgraph;
pub mod bootstraputils;
pub mod marketdata;
pub mod pricers;
pub mod flatforwardtermstructure;
pub mod curvespec;
pub mod keyed;
pub mod multicurvebootstrapper;
pub mod bootstrap;
pub mod quotestore;
pub mod interest_rate_curve_bootstrapper;
pub mod bootstrapstep;
pub mod bootstrapcalibrationinstrument;
pub mod quoteidentifier;
pub mod quoteselector;
