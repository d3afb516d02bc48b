//! The fixed byte strings of the polygon grammar.

use vstd::prelude::*;

verus! {

/// `"ply"`: the file signature.
pub open spec fn kw_ply() -> Seq<u8> {
    seq![0x70u8, 0x6c, 0x79]
}

/// The bytes of [`kw_ply`].
pub fn kw_ply_bytes() -> (r: [u8; 3])
    ensures
        r@ == kw_ply(),
{
    let r = [0x70u8, 0x6c, 0x79];
    assert(r@ =~= kw_ply());
    r
}

/// `"format "`: the format keyword.
pub open spec fn kw_format_() -> Seq<u8> {
    seq![0x66u8, 0x6f, 0x72, 0x6d, 0x61, 0x74, 0x20]
}

/// The bytes of [`kw_format_`].
pub fn kw_format__bytes() -> (r: [u8; 7])
    ensures
        r@ == kw_format_(),
{
    let r = [0x66u8, 0x6f, 0x72, 0x6d, 0x61, 0x74, 0x20];
    assert(r@ =~= kw_format_());
    r
}

/// `"ascii"`: the ASCII format.
pub open spec fn kw_ascii() -> Seq<u8> {
    seq![0x61u8, 0x73, 0x63, 0x69, 0x69]
}

/// The bytes of [`kw_ascii`].
pub fn kw_ascii_bytes() -> (r: [u8; 5])
    ensures
        r@ == kw_ascii(),
{
    let r = [0x61u8, 0x73, 0x63, 0x69, 0x69];
    assert(r@ =~= kw_ascii());
    r
}

/// `"binary_big_endian"`: the big-endian binary format.
pub open spec fn kw_binary_big_endian() -> Seq<u8> {
    seq![0x62u8, 0x69, 0x6e, 0x61, 0x72, 0x79, 0x5f, 0x62, 0x69, 0x67, 0x5f, 0x65, 0x6e, 0x64, 0x69, 0x61, 0x6e]
}

/// The bytes of [`kw_binary_big_endian`].
pub fn kw_binary_big_endian_bytes() -> (r: [u8; 17])
    ensures
        r@ == kw_binary_big_endian(),
{
    let r = [0x62u8, 0x69, 0x6e, 0x61, 0x72, 0x79, 0x5f, 0x62, 0x69, 0x67, 0x5f, 0x65, 0x6e, 0x64, 0x69, 0x61, 0x6e];
    assert(r@ =~= kw_binary_big_endian());
    r
}

/// `"binary_little_endian"`: the little-endian binary format.
pub open spec fn kw_binary_little_endian() -> Seq<u8> {
    seq![0x62u8, 0x69, 0x6e, 0x61, 0x72, 0x79, 0x5f, 0x6c, 0x69, 0x74, 0x74, 0x6c, 0x65, 0x5f, 0x65, 0x6e, 0x64, 0x69, 0x61, 0x6e]
}

/// The bytes of [`kw_binary_little_endian`].
pub fn kw_binary_little_endian_bytes() -> (r: [u8; 20])
    ensures
        r@ == kw_binary_little_endian(),
{
    let r = [0x62u8, 0x69, 0x6e, 0x61, 0x72, 0x79, 0x5f, 0x6c, 0x69, 0x74, 0x74, 0x6c, 0x65, 0x5f, 0x65, 0x6e, 0x64, 0x69, 0x61, 0x6e];
    assert(r@ =~= kw_binary_little_endian());
    r
}

/// `"list "`: the list marker of a property.
pub open spec fn kw_list_() -> Seq<u8> {
    seq![0x6cu8, 0x69, 0x73, 0x74, 0x20]
}

/// The bytes of [`kw_list_`].
pub fn kw_list__bytes() -> (r: [u8; 5])
    ensures
        r@ == kw_list_(),
{
    let r = [0x6cu8, 0x69, 0x73, 0x74, 0x20];
    assert(r@ =~= kw_list_());
    r
}

/// `"comment "`: the comment keyword.
pub open spec fn kw_comment_() -> Seq<u8> {
    seq![0x63u8, 0x6f, 0x6d, 0x6d, 0x65, 0x6e, 0x74, 0x20]
}

/// The bytes of [`kw_comment_`].
pub fn kw_comment__bytes() -> (r: [u8; 8])
    ensures
        r@ == kw_comment_(),
{
    let r = [0x63u8, 0x6f, 0x6d, 0x6d, 0x65, 0x6e, 0x74, 0x20];
    assert(r@ =~= kw_comment_());
    r
}

/// `"element "`: the element keyword.
pub open spec fn kw_element_() -> Seq<u8> {
    seq![0x65u8, 0x6c, 0x65, 0x6d, 0x65, 0x6e, 0x74, 0x20]
}

/// The bytes of [`kw_element_`].
pub fn kw_element__bytes() -> (r: [u8; 8])
    ensures
        r@ == kw_element_(),
{
    let r = [0x65u8, 0x6c, 0x65, 0x6d, 0x65, 0x6e, 0x74, 0x20];
    assert(r@ =~= kw_element_());
    r
}

/// `"property "`: the property keyword.
pub open spec fn kw_property_() -> Seq<u8> {
    seq![0x70u8, 0x72, 0x6f, 0x70, 0x65, 0x72, 0x74, 0x79, 0x20]
}

/// The bytes of [`kw_property_`].
pub fn kw_property__bytes() -> (r: [u8; 9])
    ensures
        r@ == kw_property_(),
{
    let r = [0x70u8, 0x72, 0x6f, 0x70, 0x65, 0x72, 0x74, 0x79, 0x20];
    assert(r@ =~= kw_property_());
    r
}

/// `"obj_info "`: the object information keyword.
pub open spec fn kw_obj_info_() -> Seq<u8> {
    seq![0x6fu8, 0x62, 0x6a, 0x5f, 0x69, 0x6e, 0x66, 0x6f, 0x20]
}

/// The bytes of [`kw_obj_info_`].
pub fn kw_obj_info__bytes() -> (r: [u8; 9])
    ensures
        r@ == kw_obj_info_(),
{
    let r = [0x6fu8, 0x62, 0x6a, 0x5f, 0x69, 0x6e, 0x66, 0x6f, 0x20];
    assert(r@ =~= kw_obj_info_());
    r
}

/// `"end_header"`: the end of a header.
pub open spec fn kw_end_header() -> Seq<u8> {
    seq![0x65u8, 0x6e, 0x64, 0x5f, 0x68, 0x65, 0x61, 0x64, 0x65, 0x72]
}

/// The bytes of [`kw_end_header`].
pub fn kw_end_header_bytes() -> (r: [u8; 10])
    ensures
        r@ == kw_end_header(),
{
    let r = [0x65u8, 0x6e, 0x64, 0x5f, 0x68, 0x65, 0x61, 0x64, 0x65, 0x72];
    assert(r@ =~= kw_end_header());
    r
}

/// `"pr"`: the part `pr` of a keyword.
pub open spec fn kw_pr() -> Seq<u8> {
    seq![0x70u8, 0x72]
}

/// The bytes of [`kw_pr`].
pub fn kw_pr_bytes() -> (r: [u8; 2])
    ensures
        r@ == kw_pr(),
{
    let r = [0x70u8, 0x72];
    assert(r@ =~= kw_pr());
    r
}

/// `"operty "`: the part `operty ` of a keyword.
pub open spec fn kw_operty_() -> Seq<u8> {
    seq![0x6fu8, 0x70, 0x65, 0x72, 0x74, 0x79, 0x20]
}

/// The bytes of [`kw_operty_`].
pub fn kw_operty__bytes() -> (r: [u8; 7])
    ensures
        r@ == kw_operty_(),
{
    let r = [0x6fu8, 0x70, 0x65, 0x72, 0x74, 0x79, 0x20];
    assert(r@ =~= kw_operty_());
    r
}

/// `"el"`: the part `el` of a keyword.
pub open spec fn kw_el() -> Seq<u8> {
    seq![0x65u8, 0x6c]
}

/// The bytes of [`kw_el`].
pub fn kw_el_bytes() -> (r: [u8; 2])
    ensures
        r@ == kw_el(),
{
    let r = [0x65u8, 0x6c];
    assert(r@ =~= kw_el());
    r
}

/// `"ement "`: the part `ement ` of a keyword.
pub open spec fn kw_ement_() -> Seq<u8> {
    seq![0x65u8, 0x6d, 0x65, 0x6e, 0x74, 0x20]
}

/// The bytes of [`kw_ement_`].
pub fn kw_ement__bytes() -> (r: [u8; 6])
    ensures
        r@ == kw_ement_(),
{
    let r = [0x65u8, 0x6d, 0x65, 0x6e, 0x74, 0x20];
    assert(r@ =~= kw_ement_());
    r
}

/// `"en"`: the part `en` of a keyword.
pub open spec fn kw_en() -> Seq<u8> {
    seq![0x65u8, 0x6e]
}

/// The bytes of [`kw_en`].
pub fn kw_en_bytes() -> (r: [u8; 2])
    ensures
        r@ == kw_en(),
{
    let r = [0x65u8, 0x6e];
    assert(r@ =~= kw_en());
    r
}

/// `"d_header"`: the part `d_header` of a keyword.
pub open spec fn kw_d_header() -> Seq<u8> {
    seq![0x64u8, 0x5f, 0x68, 0x65, 0x61, 0x64, 0x65, 0x72]
}

/// The bytes of [`kw_d_header`].
pub fn kw_d_header_bytes() -> (r: [u8; 8])
    ensures
        r@ == kw_d_header(),
{
    let r = [0x64u8, 0x5f, 0x68, 0x65, 0x61, 0x64, 0x65, 0x72];
    assert(r@ =~= kw_d_header());
    r
}

/// `"co"`: the part `co` of a keyword.
pub open spec fn kw_co() -> Seq<u8> {
    seq![0x63u8, 0x6f]
}

/// The bytes of [`kw_co`].
pub fn kw_co_bytes() -> (r: [u8; 2])
    ensures
        r@ == kw_co(),
{
    let r = [0x63u8, 0x6f];
    assert(r@ =~= kw_co());
    r
}

/// `"mment "`: the part `mment ` of a keyword.
pub open spec fn kw_mment_() -> Seq<u8> {
    seq![0x6du8, 0x6d, 0x65, 0x6e, 0x74, 0x20]
}

/// The bytes of [`kw_mment_`].
pub fn kw_mment__bytes() -> (r: [u8; 6])
    ensures
        r@ == kw_mment_(),
{
    let r = [0x6du8, 0x6d, 0x65, 0x6e, 0x74, 0x20];
    assert(r@ =~= kw_mment_());
    r
}

/// `"ob"`: the part `ob` of a keyword.
pub open spec fn kw_ob() -> Seq<u8> {
    seq![0x6fu8, 0x62]
}

/// The bytes of [`kw_ob`].
pub fn kw_ob_bytes() -> (r: [u8; 2])
    ensures
        r@ == kw_ob(),
{
    let r = [0x6fu8, 0x62];
    assert(r@ =~= kw_ob());
    r
}

/// `"j_info "`: the part `j_info ` of a keyword.
pub open spec fn kw_j_info_() -> Seq<u8> {
    seq![0x6au8, 0x5f, 0x69, 0x6e, 0x66, 0x6f, 0x20]
}

/// The bytes of [`kw_j_info_`].
pub fn kw_j_info__bytes() -> (r: [u8; 7])
    ensures
        r@ == kw_j_info_(),
{
    let r = [0x6au8, 0x5f, 0x69, 0x6e, 0x66, 0x6f, 0x20];
    assert(r@ =~= kw_j_info_());
    r
}

/// `"\n"`: a line end.
pub open spec fn kw_newline() -> Seq<u8> {
    seq![0x0au8]
}

/// The bytes of [`kw_newline`].
pub fn kw_newline_bytes() -> (r: [u8; 1])
    ensures
        r@ == kw_newline(),
{
    let r = [0x0au8];
    assert(r@ =~= kw_newline());
    r
}

/// `"default"`: the name of a default element or property.
pub open spec fn kw_default() -> Seq<u8> {
    seq![0x64u8, 0x65, 0x66, 0x61, 0x75, 0x6c, 0x74]
}

/// The bytes of [`kw_default`].
pub fn kw_default_bytes() -> (r: [u8; 7])
    ensures
        r@ == kw_default(),
{
    let r = [0x64u8, 0x65, 0x66, 0x61, 0x75, 0x6c, 0x74];
    assert(r@ =~= kw_default());
    r
}

/// `"inary_"`.
pub open spec fn kw_inary_() -> Seq<u8> {
    seq![0x69u8, 0x6e, 0x61, 0x72, 0x79, 0x5f]
}

/// The bytes of [`kw_inary_`].
pub fn kw_inary__bytes() -> (r: [u8; 6])
    ensures
        r@ == kw_inary_(),
{
    let r = [0x69u8, 0x6e, 0x61, 0x72, 0x79, 0x5f];
    assert(r@ =~= kw_inary_());
    r
}

/// `"ittle_endian "`.
pub open spec fn kw_ittle_endian_() -> Seq<u8> {
    seq![0x69u8, 0x74, 0x74, 0x6c, 0x65, 0x5f, 0x65, 0x6e, 0x64, 0x69, 0x61, 0x6e, 0x20]
}

/// The bytes of [`kw_ittle_endian_`].
pub fn kw_ittle_endian__bytes() -> (r: [u8; 13])
    ensures
        r@ == kw_ittle_endian_(),
{
    let r = [0x69u8, 0x74, 0x74, 0x6c, 0x65, 0x5f, 0x65, 0x6e, 0x64, 0x69, 0x61, 0x6e, 0x20];
    assert(r@ =~= kw_ittle_endian_());
    r
}

/// `"ig_endian "`.
pub open spec fn kw_ig_endian_() -> Seq<u8> {
    seq![0x69u8, 0x67, 0x5f, 0x65, 0x6e, 0x64, 0x69, 0x61, 0x6e, 0x20]
}

/// The bytes of [`kw_ig_endian_`].
pub fn kw_ig_endian__bytes() -> (r: [u8; 10])
    ensures
        r@ == kw_ig_endian_(),
{
    let r = [0x69u8, 0x67, 0x5f, 0x65, 0x6e, 0x64, 0x69, 0x61, 0x6e, 0x20];
    assert(r@ =~= kw_ig_endian_());
    r
}

/// `"scii "`.
pub open spec fn kw_scii_() -> Seq<u8> {
    seq![0x73u8, 0x63, 0x69, 0x69, 0x20]
}

/// The bytes of [`kw_scii_`].
pub fn kw_scii__bytes() -> (r: [u8; 5])
    ensures
        r@ == kw_scii_(),
{
    let r = [0x73u8, 0x63, 0x69, 0x69, 0x20];
    assert(r@ =~= kw_scii_());
    r
}

/// `"end_head"`.
pub open spec fn kw_end_head() -> Seq<u8> {
    seq![0x65u8, 0x6e, 0x64, 0x5f, 0x68, 0x65, 0x61, 0x64]
}

/// The bytes of [`kw_end_head`].
pub fn kw_end_head_bytes() -> (r: [u8; 8])
    ensures
        r@ == kw_end_head(),
{
    let r = [0x65u8, 0x6e, 0x64, 0x5f, 0x68, 0x65, 0x61, 0x64];
    assert(r@ =~= kw_end_head());
    r
}

/// `"er"`.
pub open spec fn kw_er() -> Seq<u8> {
    seq![0x65u8, 0x72]
}

/// The bytes of [`kw_er`].
pub fn kw_er_bytes() -> (r: [u8; 2])
    ensures
        r@ == kw_er(),
{
    let r = [0x65u8, 0x72];
    assert(r@ =~= kw_er());
    r
}

/// `"property"`.
pub open spec fn kw_property() -> Seq<u8> {
    seq![0x70u8, 0x72, 0x6f, 0x70, 0x65, 0x72, 0x74, 0x79]
}

/// The bytes of [`kw_property`].
pub fn kw_property_bytes() -> (r: [u8; 8])
    ensures
        r@ == kw_property(),
{
    let r = [0x70u8, 0x72, 0x6f, 0x70, 0x65, 0x72, 0x74, 0x79];
    assert(r@ =~= kw_property());
    r
}

/// `"obj_info"`.
pub open spec fn kw_obj_info() -> Seq<u8> {
    seq![0x6fu8, 0x62, 0x6a, 0x5f, 0x69, 0x6e, 0x66, 0x6f]
}

/// The bytes of [`kw_obj_info`].
pub fn kw_obj_info_bytes() -> (r: [u8; 8])
    ensures
        r@ == kw_obj_info(),
{
    let r = [0x6fu8, 0x62, 0x6a, 0x5f, 0x69, 0x6e, 0x66, 0x6f];
    assert(r@ =~= kw_obj_info());
    r
}

/// `"list"`.
pub open spec fn kw_list() -> Seq<u8> {
    seq![0x6cu8, 0x69, 0x73, 0x74]
}

/// The bytes of [`kw_list`].
pub fn kw_list_bytes() -> (r: [u8; 4])
    ensures
        r@ == kw_list(),
{
    let r = [0x6cu8, 0x69, 0x73, 0x74];
    assert(r@ =~= kw_list());
    r
}

/// `"ply\n"`.
pub open spec fn kw_ply_newline() -> Seq<u8> {
    seq![0x70u8, 0x6c, 0x79, 0x0a]
}

/// The bytes of [`kw_ply_newline`].
pub fn kw_ply_newline_bytes() -> (r: [u8; 4])
    ensures
        r@ == kw_ply_newline(),
{
    let r = [0x70u8, 0x6c, 0x79, 0x0a];
    assert(r@ =~= kw_ply_newline());
    r
}

/// `"elements"`.
pub open spec fn kw_elements() -> Seq<u8> {
    seq![0x65u8, 0x6c, 0x65, 0x6d, 0x65, 0x6e, 0x74, 0x73]
}

/// The bytes of [`kw_elements`].
pub fn kw_elements_bytes() -> (r: [u8; 8])
    ensures
        r@ == kw_elements(),
{
    let r = [0x65u8, 0x6c, 0x65, 0x6d, 0x65, 0x6e, 0x74, 0x73];
    assert(r@ =~= kw_elements());
    r
}

/// `"properties"`.
pub open spec fn kw_properties() -> Seq<u8> {
    seq![0x70u8, 0x72, 0x6f, 0x70, 0x65, 0x72, 0x74, 0x69, 0x65, 0x73]
}

/// The bytes of [`kw_properties`].
pub fn kw_properties_bytes() -> (r: [u8; 10])
    ensures
        r@ == kw_properties(),
{
    let r = [0x70u8, 0x72, 0x6f, 0x70, 0x65, 0x72, 0x74, 0x69, 0x65, 0x73];
    assert(r@ =~= kw_properties());
    r
}

/// `"bytes"`.
pub open spec fn kw_bytes() -> Seq<u8> {
    seq![0x62u8, 0x79, 0x74, 0x65, 0x73]
}

/// The bytes of [`kw_bytes`].
pub fn kw_bytes_bytes() -> (r: [u8; 5])
    ensures
        r@ == kw_bytes(),
{
    let r = [0x62u8, 0x79, 0x74, 0x65, 0x73];
    assert(r@ =~= kw_bytes());
    r
}

/// `"element index "`: how an error names the record it stopped at.
pub open spec fn kw_element_index_() -> Seq<u8> {
    seq![0x65u8, 0x6c, 0x65, 0x6d, 0x65, 0x6e, 0x74, 0x20, 0x69, 0x6e, 0x64, 0x65, 0x78, 0x20]
}

/// The bytes of [`kw_element_index_`].
pub fn kw_element_index__bytes() -> (r: [u8; 14])
    ensures
        r@ == kw_element_index_(),
{
    let r = [0x65u8, 0x6c, 0x65, 0x6d, 0x65, 0x6e, 0x74, 0x20, 0x69, 0x6e, 0x64, 0x65, 0x78, 0x20];
    assert(r@ =~= kw_element_index_());
    r
}

} // verus!
