//! The scenario model: global parameters, reusable assets (pulses, timings,
//! antennas) and platforms that reference assets by identifier.
//!
//! Real-valued quantities are carried as their decimal text, exactly as they
//! stand in the document and in the editing surface; the number shape a
//! field may hold is [`crate::text::is_number_text`].  Identifiers are
//! synthesized on deserialization and only need to be unique within one
//! document.

#![allow(non_snake_case)]

use vstd::prelude::*;


verus! {

/// Interpolation algorithms offered for motion and rotation paths.
#[derive(Clone, Copy, PartialEq, Eq, Structural, Debug)]
pub enum InterpolationType {
    Static,
    Linear,
    Cubic,
}

/// Export format switches of the global parameters.
#[derive(Clone, Debug)]
pub struct ExportOptions {
    pub xml: bool,
    pub csv: bool,
    pub binary: bool,
}

/// Global simulation parameters.
#[derive(Clone, Debug)]
pub struct GlobalParameters {
    pub id: String,
    pub type_tag: String,
    pub simulation_name: String,
    pub start: String,
    pub end: String,
    pub rate: String,
    pub simSamplingRate: Option<String>,
    pub c: String,
    pub random_seed: Option<u64>,
    pub adc_bits: i64,
    pub oversample_ratio: i64,
    pub export: ExportOptions,
}

/// A pulse waveform asset.
#[derive(Clone, Debug)]
pub struct Pulse {
    pub id: String,
    pub type_tag: String,
    pub name: String,
    pub pulseType: String,
    pub power: String,
    pub carrier: String,
    pub filename: Option<String>,
}

/// One noise entry of a timing source.
#[derive(Clone, Debug)]
pub struct NoiseEntry {
    pub id: String,
    pub alpha: String,
    pub weight: String,
}

/// A timing source asset.
#[derive(Clone, Debug)]
pub struct Timing {
    pub id: String,
    pub type_tag: String,
    pub name: String,
    pub frequency: String,
    pub freqOffset: Option<String>,
    pub randomFreqOffsetStdev: Option<String>,
    pub phaseOffset: Option<String>,
    pub randomPhaseOffsetStdev: Option<String>,
    pub noiseEntries: Vec<NoiseEntry>,
}

/// An antenna pattern asset.
#[derive(Clone, Debug)]
pub struct Antenna {
    pub id: String,
    pub type_tag: String,
    pub name: String,
    pub pattern: String,
    pub filename: Option<String>,
    pub efficiency: Option<String>,
    pub alpha: Option<String>,
    pub beta: Option<String>,
    pub gamma: Option<String>,
    pub azscale: Option<String>,
    pub elscale: Option<String>,
    pub diameter: Option<String>,
}

/// One waypoint of a motion path.
#[derive(Clone, Debug)]
pub struct PositionWaypoint {
    pub id: String,
    pub x: String,
    pub y: String,
    pub altitude: String,
    pub time: String,
}

/// A platform's motion path.
#[derive(Clone, Debug)]
pub struct MotionPath {
    pub interpolation: String,
    pub waypoints: Vec<PositionWaypoint>,
}

/// A platform's rotation: fixed rates or an interpolated path.
#[derive(Clone, Debug)]
pub enum Rotation {
    Fixed(FixedRotation),
    Path(RotationPath),
}

/// A rotation given by start angles and constant rates.
#[derive(Clone, Debug)]
pub struct FixedRotation {
    pub startAzimuth: String,
    pub startElevation: String,
    pub azimuthRate: String,
    pub elevationRate: String,
}

/// One waypoint of a rotation path.
#[derive(Clone, Debug)]
pub struct RotationWaypoint {
    pub id: String,
    pub azimuth: String,
    pub elevation: String,
    pub time: String,
}

/// A rotation given by interpolated waypoints.
#[derive(Clone, Debug)]
pub struct RotationPath {
    pub interpolation: String,
    pub waypoints: Vec<RotationWaypoint>,
}

/// The role a platform plays, exactly one per platform.
#[derive(Clone, Debug)]
pub enum PlatformComponent {
    NoComponent,
    Monostatic(Monostatic),
    Transmitter(Transmitter),
    Receiver(Receiver),
    Target(Target),
}

/// A combined transmitter and receiver.
#[derive(Clone, Debug)]
pub struct Monostatic {
    pub name: String,
    pub radarType: String,
    pub window_skip: String,
    pub window_length: String,
    pub prf: String,
    pub antennaId: Option<String>,
    pub pulseId: Option<String>,
    pub timingId: Option<String>,
    pub noiseTemperature: Option<String>,
    pub noDirectPaths: bool,
    pub noPropagationLoss: bool,
}

/// A transmitter.
#[derive(Clone, Debug)]
pub struct Transmitter {
    pub name: String,
    pub radarType: String,
    pub prf: String,
    pub antennaId: Option<String>,
    pub pulseId: Option<String>,
    pub timingId: Option<String>,
}

/// A receiver.
#[derive(Clone, Debug)]
pub struct Receiver {
    pub name: String,
    pub window_skip: String,
    pub window_length: String,
    pub prf: String,
    pub antennaId: Option<String>,
    pub timingId: Option<String>,
    pub noiseTemperature: Option<String>,
    pub noDirectPaths: bool,
    pub noPropagationLoss: bool,
}

/// A radar target with its cross-section specification.
#[derive(Clone, Debug)]
pub struct Target {
    pub name: String,
    pub rcs_type: String,
    pub rcs_value: Option<String>,
    pub rcs_filename: Option<String>,
    pub rcs_model: String,
    pub rcs_k: Option<String>,
}

/// A platform: motion, rotation and role.
#[derive(Clone, Debug)]
pub struct Platform {
    pub id: String,
    pub type_tag: String,
    pub name: String,
    pub motionPath: MotionPath,
    pub rotation: Rotation,
    pub component: PlatformComponent,
}

/// A whole scenario.
#[derive(Clone, Debug)]
pub struct ScenarioState {
    pub globalParameters: GlobalParameters,
    pub pulses: Vec<Pulse>,
    pub timings: Vec<Timing>,
    pub antennas: Vec<Antenna>,
    pub platforms: Vec<Platform>,
}

/// The invariant the specification states on global parameters, as far as
/// it speaks of integer fields: a positive converter depth.  The ordering
/// of the real-valued texts is not modeled here.
pub open spec fn params_invariant(g: GlobalParameters) -> bool {
    g.adc_bits > 0
}

/// The default the editing surface assumes for an omitted switch.
pub fn default_as_true() -> (r: bool)
    ensures
        r,
{
    true
}

/// The default radar kind of a transmit-capable component.
pub fn default_as_pulsed() -> (r: String)
    ensures
        r@ == "pulsed"@,
{
    String::from_str("pulsed")
}

/// The default cross-section kind of a target.
pub fn default_as_isotropic() -> (r: String)
    ensures
        r@ == "isotropic"@,
{
    String::from_str("isotropic")
}

/// The default fluctuation model of a target.
pub fn default_as_constant() -> (r: String)
    ensures
        r@ == "constant"@,
{
    String::from_str("constant")
}

/// The fixed identifier of the global parameters entity.
pub fn default_gp_id() -> (r: String)
    ensures
        r@ == "global-parameters"@,
{
    String::from_str("global-parameters")
}

/// The fixed kind tag of the global parameters entity.
pub fn default_gp_type() -> (r: String)
    ensures
        r@ == "GlobalParameters"@,
{
    String::from_str("GlobalParameters")
}

/// The fixed kind tag of a pulse.
pub fn default_pulse_type_field() -> (r: String)
    ensures
        r@ == "Pulse"@,
{
    String::from_str("Pulse")
}

/// The fixed kind tag of a timing source.
pub fn default_timing_type_field() -> (r: String)
    ensures
        r@ == "Timing"@,
{
    String::from_str("Timing")
}

/// The fixed kind tag of an antenna.
pub fn default_antenna_type_field() -> (r: String)
    ensures
        r@ == "Antenna"@,
{
    String::from_str("Antenna")
}

/// The fixed kind tag of a platform.
pub fn default_platform_type_field() -> (r: String)
    ensures
        r@ == "Platform"@,
{
    String::from_str("Platform")
}

impl Default for ExportOptions {
    /// All switches off.
    fn default() -> (r: Self)
        ensures
            !r.xml && !r.csv && !r.binary,
    {
        ExportOptions { xml: false, csv: false, binary: false }
    }
}

impl Default for GlobalParameters {
    /// A fresh simulation: ten seconds at ten kilohertz, vacuum light speed,
    /// twelve converter bits, no oversampling and no fixed seed.
    fn default() -> (r: Self)
        ensures
            r.id@ == "global-parameters"@,
            r.type_tag@ == "GlobalParameters"@,
            r.simulation_name@ == "FERS Simulation"@,
            r.start@ == "0"@,
            r.end@ == "10"@,
            r.rate@ == "10000"@,
            r.simSamplingRate is None,
            r.c@ == "299792458"@,
            r.random_seed is None,
            r.adc_bits == 12,
            r.oversample_ratio == 1,
            !r.export.xml && !r.export.csv && !r.export.binary,
            params_invariant(r),
    {
        GlobalParameters {
            id: default_gp_id(),
            type_tag: default_gp_type(),
            simulation_name: String::from_str("FERS Simulation"),
            start: String::from_str("0"),
            end: String::from_str("10"),
            rate: String::from_str("10000"),
            simSamplingRate: None,
            c: String::from_str("299792458"),
            random_seed: None,
            adc_bits: 12,
            oversample_ratio: 1,
            export: ExportOptions::default(),
        }
    }
}

impl Default for ScenarioState {
    /// Default global parameters and no assets or platforms.
    fn default() -> (r: Self)
        ensures
            r.pulses@.len() == 0,
            r.timings@.len() == 0,
            r.antennas@.len() == 0,
            r.platforms@.len() == 0,
            r.globalParameters.adc_bits == 12,
    {
        ScenarioState {
            globalParameters: GlobalParameters::default(),
            pulses: Vec::new(),
            timings: Vec::new(),
            antennas: Vec::new(),
            platforms: Vec::new(),
        }
    }
}

} // verus!

// The mathematical value of each model type: text fields become character
// sequences, lists become sequences.  Contracts and the round-trip laws
// speak of these values, never of heap strings.

verus! {

/// Value of [`ExportOptions`].
pub struct ExportOptionsV {
    pub xml: bool,
    pub csv: bool,
    pub binary: bool,
}

/// Value of [`GlobalParameters`].
pub struct GlobalParametersV {
    pub id: Seq<char>,
    pub type_tag: Seq<char>,
    pub simulation_name: Seq<char>,
    pub start: Seq<char>,
    pub end: Seq<char>,
    pub rate: Seq<char>,
    pub simSamplingRate: Option<Seq<char>>,
    pub c: Seq<char>,
    pub random_seed: Option<u64>,
    pub adc_bits: i64,
    pub oversample_ratio: i64,
    pub export: ExportOptionsV,
}

/// Value of [`Pulse`].
pub struct PulseV {
    pub id: Seq<char>,
    pub type_tag: Seq<char>,
    pub name: Seq<char>,
    pub pulseType: Seq<char>,
    pub power: Seq<char>,
    pub carrier: Seq<char>,
    pub filename: Option<Seq<char>>,
}

/// Value of [`NoiseEntry`].
pub struct NoiseEntryV {
    pub id: Seq<char>,
    pub alpha: Seq<char>,
    pub weight: Seq<char>,
}

/// Value of [`Timing`].
pub struct TimingV {
    pub id: Seq<char>,
    pub type_tag: Seq<char>,
    pub name: Seq<char>,
    pub frequency: Seq<char>,
    pub freqOffset: Option<Seq<char>>,
    pub randomFreqOffsetStdev: Option<Seq<char>>,
    pub phaseOffset: Option<Seq<char>>,
    pub randomPhaseOffsetStdev: Option<Seq<char>>,
    pub noiseEntries: Seq<NoiseEntryV>,
}

/// Value of [`Antenna`].
pub struct AntennaV {
    pub id: Seq<char>,
    pub type_tag: Seq<char>,
    pub name: Seq<char>,
    pub pattern: Seq<char>,
    pub filename: Option<Seq<char>>,
    pub efficiency: Option<Seq<char>>,
    pub alpha: Option<Seq<char>>,
    pub beta: Option<Seq<char>>,
    pub gamma: Option<Seq<char>>,
    pub azscale: Option<Seq<char>>,
    pub elscale: Option<Seq<char>>,
    pub diameter: Option<Seq<char>>,
}

/// Value of [`PositionWaypoint`].
pub struct PositionWaypointV {
    pub id: Seq<char>,
    pub x: Seq<char>,
    pub y: Seq<char>,
    pub altitude: Seq<char>,
    pub time: Seq<char>,
}

/// Value of [`MotionPath`].
pub struct MotionPathV {
    pub interpolation: Seq<char>,
    pub waypoints: Seq<PositionWaypointV>,
}

/// Value of [`Rotation`].
pub enum RotationV {
    Fixed(FixedRotationV),
    Path(RotationPathV),
}

/// Value of [`FixedRotation`].
pub struct FixedRotationV {
    pub startAzimuth: Seq<char>,
    pub startElevation: Seq<char>,
    pub azimuthRate: Seq<char>,
    pub elevationRate: Seq<char>,
}

/// Value of [`RotationWaypoint`].
pub struct RotationWaypointV {
    pub id: Seq<char>,
    pub azimuth: Seq<char>,
    pub elevation: Seq<char>,
    pub time: Seq<char>,
}

/// Value of [`RotationPath`].
pub struct RotationPathV {
    pub interpolation: Seq<char>,
    pub waypoints: Seq<RotationWaypointV>,
}

/// Value of [`PlatformComponent`].
pub enum PlatformComponentV {
    NoComponent,
    Monostatic(MonostaticV),
    Transmitter(TransmitterV),
    Receiver(ReceiverV),
    Target(TargetV),
}

/// Value of [`Monostatic`].
pub struct MonostaticV {
    pub name: Seq<char>,
    pub radarType: Seq<char>,
    pub window_skip: Seq<char>,
    pub window_length: Seq<char>,
    pub prf: Seq<char>,
    pub antennaId: Option<Seq<char>>,
    pub pulseId: Option<Seq<char>>,
    pub timingId: Option<Seq<char>>,
    pub noiseTemperature: Option<Seq<char>>,
    pub noDirectPaths: bool,
    pub noPropagationLoss: bool,
}

/// Value of [`Transmitter`].
pub struct TransmitterV {
    pub name: Seq<char>,
    pub radarType: Seq<char>,
    pub prf: Seq<char>,
    pub antennaId: Option<Seq<char>>,
    pub pulseId: Option<Seq<char>>,
    pub timingId: Option<Seq<char>>,
}

/// Value of [`Receiver`].
pub struct ReceiverV {
    pub name: Seq<char>,
    pub window_skip: Seq<char>,
    pub window_length: Seq<char>,
    pub prf: Seq<char>,
    pub antennaId: Option<Seq<char>>,
    pub timingId: Option<Seq<char>>,
    pub noiseTemperature: Option<Seq<char>>,
    pub noDirectPaths: bool,
    pub noPropagationLoss: bool,
}

/// Value of [`Target`].
pub struct TargetV {
    pub name: Seq<char>,
    pub rcs_type: Seq<char>,
    pub rcs_value: Option<Seq<char>>,
    pub rcs_filename: Option<Seq<char>>,
    pub rcs_model: Seq<char>,
    pub rcs_k: Option<Seq<char>>,
}

/// Value of [`Platform`].
pub struct PlatformV {
    pub id: Seq<char>,
    pub type_tag: Seq<char>,
    pub name: Seq<char>,
    pub motionPath: MotionPathV,
    pub rotation: RotationV,
    pub component: PlatformComponentV,
}

/// Value of [`ScenarioState`].
pub struct ScenarioV {
    pub globalParameters: GlobalParametersV,
    pub pulses: Seq<PulseV>,
    pub timings: Seq<TimingV>,
    pub antennas: Seq<AntennaV>,
    pub platforms: Seq<PlatformV>,
}

/// The value of an optional text field.
pub open spec fn opt_view(o: Option<String>) -> Option<Seq<char>> {
    match o {
        Some(s) => Some(s@),
        None => None,
    }
}

impl View for ExportOptions {
    type V = ExportOptionsV;

    open spec fn view(&self) -> ExportOptionsV {
        ExportOptionsV { xml: self.xml, csv: self.csv, binary: self.binary }
    }
}

impl View for GlobalParameters {
    type V = GlobalParametersV;

    open spec fn view(&self) -> GlobalParametersV {
        GlobalParametersV {
            id: self.id@,
            type_tag: self.type_tag@,
            simulation_name: self.simulation_name@,
            start: self.start@,
            end: self.end@,
            rate: self.rate@,
            simSamplingRate: opt_view(self.simSamplingRate),
            c: self.c@,
            random_seed: self.random_seed,
            adc_bits: self.adc_bits,
            oversample_ratio: self.oversample_ratio,
            export: self.export@,
        }
    }
}

impl View for Pulse {
    type V = PulseV;

    open spec fn view(&self) -> PulseV {
        PulseV {
            id: self.id@,
            type_tag: self.type_tag@,
            name: self.name@,
            pulseType: self.pulseType@,
            power: self.power@,
            carrier: self.carrier@,
            filename: opt_view(self.filename),
        }
    }
}

impl View for NoiseEntry {
    type V = NoiseEntryV;

    open spec fn view(&self) -> NoiseEntryV {
        NoiseEntryV { id: self.id@, alpha: self.alpha@, weight: self.weight@ }
    }
}

impl View for Timing {
    type V = TimingV;

    open spec fn view(&self) -> TimingV {
        TimingV {
            id: self.id@,
            type_tag: self.type_tag@,
            name: self.name@,
            frequency: self.frequency@,
            freqOffset: opt_view(self.freqOffset),
            randomFreqOffsetStdev: opt_view(self.randomFreqOffsetStdev),
            phaseOffset: opt_view(self.phaseOffset),
            randomPhaseOffsetStdev: opt_view(self.randomPhaseOffsetStdev),
            noiseEntries: Seq::new(self.noiseEntries@.len(), |i: int| self.noiseEntries@[i]@),
        }
    }
}

impl View for Antenna {
    type V = AntennaV;

    open spec fn view(&self) -> AntennaV {
        AntennaV {
            id: self.id@,
            type_tag: self.type_tag@,
            name: self.name@,
            pattern: self.pattern@,
            filename: opt_view(self.filename),
            efficiency: opt_view(self.efficiency),
            alpha: opt_view(self.alpha),
            beta: opt_view(self.beta),
            gamma: opt_view(self.gamma),
            azscale: opt_view(self.azscale),
            elscale: opt_view(self.elscale),
            diameter: opt_view(self.diameter),
        }
    }
}

impl View for PositionWaypoint {
    type V = PositionWaypointV;

    open spec fn view(&self) -> PositionWaypointV {
        PositionWaypointV {
            id: self.id@,
            x: self.x@,
            y: self.y@,
            altitude: self.altitude@,
            time: self.time@,
        }
    }
}

impl View for MotionPath {
    type V = MotionPathV;

    open spec fn view(&self) -> MotionPathV {
        MotionPathV {
            interpolation: self.interpolation@,
            waypoints: Seq::new(self.waypoints@.len(), |i: int| self.waypoints@[i]@),
        }
    }
}

impl View for FixedRotation {
    type V = FixedRotationV;

    open spec fn view(&self) -> FixedRotationV {
        FixedRotationV {
            startAzimuth: self.startAzimuth@,
            startElevation: self.startElevation@,
            azimuthRate: self.azimuthRate@,
            elevationRate: self.elevationRate@,
        }
    }
}

impl View for RotationWaypoint {
    type V = RotationWaypointV;

    open spec fn view(&self) -> RotationWaypointV {
        RotationWaypointV {
            id: self.id@,
            azimuth: self.azimuth@,
            elevation: self.elevation@,
            time: self.time@,
        }
    }
}

impl View for RotationPath {
    type V = RotationPathV;

    open spec fn view(&self) -> RotationPathV {
        RotationPathV {
            interpolation: self.interpolation@,
            waypoints: Seq::new(self.waypoints@.len(), |i: int| self.waypoints@[i]@),
        }
    }
}

impl View for Rotation {
    type V = RotationV;

    open spec fn view(&self) -> RotationV {
        match self {
            Rotation::Fixed(f) => RotationV::Fixed(f@),
            Rotation::Path(p) => RotationV::Path(p@),
        }
    }
}

impl View for Monostatic {
    type V = MonostaticV;

    open spec fn view(&self) -> MonostaticV {
        MonostaticV {
            name: self.name@,
            radarType: self.radarType@,
            window_skip: self.window_skip@,
            window_length: self.window_length@,
            prf: self.prf@,
            antennaId: opt_view(self.antennaId),
            pulseId: opt_view(self.pulseId),
            timingId: opt_view(self.timingId),
            noiseTemperature: opt_view(self.noiseTemperature),
            noDirectPaths: self.noDirectPaths,
            noPropagationLoss: self.noPropagationLoss,
        }
    }
}

impl View for Transmitter {
    type V = TransmitterV;

    open spec fn view(&self) -> TransmitterV {
        TransmitterV {
            name: self.name@,
            radarType: self.radarType@,
            prf: self.prf@,
            antennaId: opt_view(self.antennaId),
            pulseId: opt_view(self.pulseId),
            timingId: opt_view(self.timingId),
        }
    }
}

impl View for Receiver {
    type V = ReceiverV;

    open spec fn view(&self) -> ReceiverV {
        ReceiverV {
            name: self.name@,
            window_skip: self.window_skip@,
            window_length: self.window_length@,
            prf: self.prf@,
            antennaId: opt_view(self.antennaId),
            timingId: opt_view(self.timingId),
            noiseTemperature: opt_view(self.noiseTemperature),
            noDirectPaths: self.noDirectPaths,
            noPropagationLoss: self.noPropagationLoss,
        }
    }
}

impl View for Target {
    type V = TargetV;

    open spec fn view(&self) -> TargetV {
        TargetV {
            name: self.name@,
            rcs_type: self.rcs_type@,
            rcs_value: opt_view(self.rcs_value),
            rcs_filename: opt_view(self.rcs_filename),
            rcs_model: self.rcs_model@,
            rcs_k: opt_view(self.rcs_k),
        }
    }
}

impl View for PlatformComponent {
    type V = PlatformComponentV;

    open spec fn view(&self) -> PlatformComponentV {
        match self {
            PlatformComponent::NoComponent => PlatformComponentV::NoComponent,
            PlatformComponent::Monostatic(m) => PlatformComponentV::Monostatic(m@),
            PlatformComponent::Transmitter(t) => PlatformComponentV::Transmitter(t@),
            PlatformComponent::Receiver(r) => PlatformComponentV::Receiver(r@),
            PlatformComponent::Target(t) => PlatformComponentV::Target(t@),
        }
    }
}

impl View for Platform {
    type V = PlatformV;

    open spec fn view(&self) -> PlatformV {
        PlatformV {
            id: self.id@,
            type_tag: self.type_tag@,
            name: self.name@,
            motionPath: self.motionPath@,
            rotation: self.rotation@,
            component: self.component@,
        }
    }
}

impl View for ScenarioState {
    type V = ScenarioV;

    open spec fn view(&self) -> ScenarioV {
        ScenarioV {
            globalParameters: self.globalParameters@,
            pulses: Seq::new(self.pulses@.len(), |i: int| self.pulses@[i]@),
            timings: Seq::new(self.timings@.len(), |i: int| self.timings@[i]@),
            antennas: Seq::new(self.antennas@.len(), |i: int| self.antennas@[i]@),
            platforms: Seq::new(self.platforms@.len(), |i: int| self.platforms@[i]@),
        }
    }
}

} // verus!
