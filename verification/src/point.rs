use vstd::prelude::*;

verus! {

/// The color of a point.
#[derive(Clone, Copy, Debug, PartialEq, Eq, Structural)]
pub struct Color {
    pub red: u16,
    pub green: u16,
    pub blue: u16,
}

/// One point, with its coordinates as they are stored.
///
/// The GPS time is held as the 64 bits of the double that the file holds.
#[derive(Clone, Debug, PartialEq, Eq)]
pub struct Point {
    pub x: i32,
    pub y: i32,
    pub z: i32,
    pub intensity: u16,
    pub return_number: u8,
    pub number_of_returns: u8,
    /// Whether the scanner moved in the positive direction.
    pub scan_direction: bool,
    pub is_edge_of_flight_line: bool,
    pub classification: u8,
    pub scan_angle: i8,
    pub user_data: u8,
    pub point_source_id: u16,
    pub gps_time: Option<u64>,
    pub color: Option<Color>,
    pub extra_bytes: Vec<u8>,
}

impl Point {
    /// The point at the given stored coordinates with nothing else set.
    pub fn new(x: i32, y: i32, z: i32) -> (r: Point)
        ensures
            r@ == (PointView {
                x,
                y,
                z,
                intensity: 0,
                return_number: 0,
                number_of_returns: 0,
                scan_direction: false,
                is_edge_of_flight_line: false,
                classification: 0,
                scan_angle: 0,
                user_data: 0,
                point_source_id: 0,
                gps_time: None,
                color: None,
                extra_bytes: Seq::<u8>::empty(),
            }),
    {
        let r = Point {
            x,
            y,
            z,
            intensity: 0,
            return_number: 0,
            number_of_returns: 0,
            scan_direction: false,
            is_edge_of_flight_line: false,
            classification: 0,
            scan_angle: 0,
            user_data: 0,
            point_source_id: 0,
            gps_time: None,
            color: None,
            extra_bytes: Vec::new(),
        };
        assert(r.extra_bytes@ =~= Seq::<u8>::empty());
        r
    }
}

/// A point as contracts see it: the same fields, with the extra bytes as a sequence.
pub struct PointView {
    pub x: i32,
    pub y: i32,
    pub z: i32,
    pub intensity: u16,
    pub return_number: u8,
    pub number_of_returns: u8,
    pub scan_direction: bool,
    pub is_edge_of_flight_line: bool,
    pub classification: u8,
    pub scan_angle: i8,
    pub user_data: u8,
    pub point_source_id: u16,
    pub gps_time: Option<u64>,
    pub color: Option<Color>,
    pub extra_bytes: Seq<u8>,
}

impl View for Point {
    type V = PointView;

    open spec fn view(&self) -> PointView {
        PointView {
            x: self.x,
            y: self.y,
            z: self.z,
            intensity: self.intensity,
            return_number: self.return_number,
            number_of_returns: self.number_of_returns,
            scan_direction: self.scan_direction,
            is_edge_of_flight_line: self.is_edge_of_flight_line,
            classification: self.classification,
            scan_angle: self.scan_angle,
            user_data: self.user_data,
            point_source_id: self.point_source_id,
            gps_time: self.gps_time,
            color: self.color,
            extra_bytes: self.extra_bytes@,
        }
    }
}

} // verus!
