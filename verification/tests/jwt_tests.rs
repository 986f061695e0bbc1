use std::time::{SystemTime, UNIX_EPOCH};

use base64::engine::general_purpose::{STANDARD, URL_SAFE_NO_PAD};
use base64::Engine as _;
use jsonwebtoken::{encode, Algorithm, EncodingKey, Header};
use key_connector::error::ApiError;
use key_connector::jwt::{
    authenticate, bearer_from_header, claims_from_decoded, discovery_url, key_from_jwk,
    key_from_jwks, key_from_pem, DiscoveryAction, DiscoveryRetry, Jwk, RsaPublicKey,
    TokenVerifier, DISCOVERY_ATTEMPTS,
};

const ISSUER: &str = "https://vault.example.com|login";

/// The test signing key, an RSA private key in PKCS#1 DER.
const TEST_SIGNING_KEY_DER: [u8; 1190] = [
    0x30, 0x82, 0x04, 0xa2, 0x02, 0x01, 0x00, 0x02, 0x82, 0x01, 0x01, 0x00, 0x89, 0x80, 0x56, 0xc5,
    0x0f, 0xcd, 0x05, 0x24, 0x5d, 0x39, 0x5f, 0x01, 0xd5, 0x30, 0x87, 0x4d, 0xd1, 0xd7, 0x26, 0x0d,
    0x91, 0xb7, 0xac, 0x9c, 0x6c, 0xcb, 0x4c, 0x96, 0x37, 0x0f, 0xb4, 0xe1, 0x25, 0xea, 0x35, 0x85,
    0xb6, 0x5b, 0x00, 0x19, 0x8e, 0xa7, 0x71, 0xe1, 0xdd, 0x3b, 0x86, 0xee, 0xb3, 0x52, 0x0d, 0xa0,
    0xca, 0x98, 0xd4, 0xcb, 0xcd, 0x55, 0xe1, 0x4f, 0xca, 0x05, 0xcb, 0x76, 0xd1, 0xba, 0xa3, 0x2a,
    0xe9, 0x55, 0xde, 0x8d, 0x96, 0x6f, 0x17, 0xfc, 0x83, 0x07, 0xf7, 0x22, 0xee, 0x1d, 0xd5, 0x99,
    0xfc, 0x83, 0x35, 0x3a, 0x0e, 0x32, 0x14, 0x7c, 0x1c, 0xb5, 0x7b, 0xbf, 0xd2, 0xcd, 0x57, 0xd5,
    0xcd, 0x3d, 0xec, 0x90, 0xbb, 0xe2, 0x82, 0x37, 0x8e, 0x4a, 0x23, 0x41, 0x82, 0x2e, 0xb7, 0x36,
    0x21, 0xaa, 0x2e, 0x5a, 0xf4, 0x2d, 0x90, 0x0b, 0xc9, 0x2d, 0x0d, 0x80, 0x62, 0x8b, 0x3a, 0x24,
    0x73, 0xb0, 0xc8, 0x88, 0xc7, 0xcd, 0x8c, 0xc3, 0x5f, 0x82, 0xf4, 0x85, 0x3c, 0x4c, 0xcd, 0x20,
    0xe2, 0xe2, 0xec, 0x99, 0xd6, 0x51, 0xbb, 0xd3, 0xc0, 0xa9, 0xb1, 0xdf, 0x7d, 0xc8, 0x6d, 0x48,
    0xab, 0x1c, 0x51, 0x1b, 0x1a, 0xfd, 0x81, 0xd0, 0x58, 0x93, 0xe1, 0x73, 0x8f, 0x79, 0xbb, 0x7c,
    0xfe, 0x19, 0x5c, 0x70, 0xfb, 0x25, 0x74, 0x0c, 0x6d, 0xd6, 0x34, 0x86, 0x27, 0xc3, 0x1d, 0xb2,
    0x56, 0xbb, 0x2e, 0x20, 0x21, 0xad, 0xf1, 0x69, 0x66, 0x1e, 0xf4, 0x7b, 0x93, 0x4c, 0x70, 0xdb,
    0xfd, 0xc5, 0xbc, 0xfa, 0x18, 0x12, 0x11, 0x4b, 0x21, 0x19, 0xb8, 0xb3, 0xe2, 0x4f, 0x80, 0xd1,
    0x4a, 0xf9, 0x92, 0xbc, 0x31, 0x96, 0x6d, 0x75, 0xd7, 0x83, 0xa8, 0xd2, 0xc5, 0x72, 0xc5, 0x68,
    0x0e, 0xb4, 0x45, 0xcc, 0x09, 0x46, 0x0f, 0xcf, 0xf1, 0x5c, 0xae, 0x29, 0x02, 0x03, 0x01, 0x00,
    0x01, 0x02, 0x82, 0x01, 0x00, 0x42, 0xfa, 0xda, 0x09, 0xc7, 0x8f, 0x2a, 0xfc, 0x92, 0x4e, 0xf2,
    0xa9, 0x6d, 0x64, 0xe4, 0xdc, 0x33, 0x26, 0x77, 0x7a, 0x6f, 0xab, 0xc5, 0xf1, 0x33, 0x0b, 0xfb,
    0x64, 0x47, 0x31, 0x26, 0xfe, 0xf0, 0x1d, 0xbd, 0x71, 0xc3, 0xa9, 0x63, 0x8c, 0x8f, 0x91, 0xa0,
    0xa7, 0x92, 0x41, 0xbf, 0x92, 0x82, 0x96, 0xab, 0x5d, 0xd2, 0xa3, 0x0d, 0x31, 0xb3, 0xf6, 0x2c,
    0x39, 0xd6, 0x62, 0xe9, 0x40, 0x99, 0x9c, 0xad, 0x84, 0x27, 0x42, 0xf5, 0x95, 0x0a, 0x1d, 0x56,
    0xd5, 0x62, 0x2c, 0xdc, 0xa5, 0xce, 0xd1, 0x88, 0xae, 0x28, 0xb3, 0xef, 0x97, 0x36, 0xb8, 0x0d,
    0x83, 0x81, 0xe6, 0xa4, 0x00, 0x06, 0xdb, 0x91, 0x78, 0x6c, 0x30, 0xc8, 0x8e, 0x9e, 0x7f, 0x91,
    0xc8, 0x27, 0x4f, 0x95, 0x0a, 0x01, 0xb4, 0xe8, 0xf9, 0x7c, 0xff, 0xad, 0xf2, 0x0f, 0x75, 0x2c,
    0x70, 0x99, 0x50, 0x91, 0x7c, 0xec, 0x69, 0x45, 0xd9, 0x75, 0x69, 0x89, 0x45, 0x22, 0xb1, 0xa6,
    0x58, 0xc0, 0x54, 0xcc, 0xdb, 0x7f, 0xaf, 0x8e, 0xca, 0x1a, 0xfb, 0xf1, 0x60, 0x8a, 0x71, 0x0b,
    0xa9, 0xb4, 0xc8, 0x7e, 0x8a, 0x22, 0xd5, 0xa0, 0x00, 0xae, 0xd7, 0xee, 0x45, 0x36, 0x24, 0x30,
    0xd7, 0xc2, 0xc1, 0xd9, 0xbb, 0x9f, 0x95, 0xb0, 0x91, 0x5d, 0xcb, 0xa0, 0xf2, 0x82, 0x42, 0x22,
    0x3f, 0x9f, 0xc5, 0x5c, 0x0a, 0x40, 0x16, 0xe4, 0xfc, 0x53, 0x3c, 0x44, 0xda, 0xd9, 0x9a, 0x6c,
    0x54, 0x74, 0xec, 0xa2, 0x6c, 0x18, 0x37, 0xef, 0xd6, 0xc3, 0x21, 0xd1, 0xbb, 0xc6, 0xb9, 0x42,
    0x3d, 0xff, 0xef, 0xb8, 0xdd, 0xde, 0x55, 0x1a, 0x1f, 0x96, 0xce, 0xcc, 0x63, 0x2d, 0x24, 0xc2,
    0xef, 0x7e, 0x83, 0x38, 0xfe, 0xde, 0x68, 0xa6, 0x09, 0x3e, 0x7c, 0xba, 0x5f, 0x80, 0x28, 0xd9,
    0x49, 0xab, 0x8a, 0xf2, 0x53, 0x02, 0x81, 0x81, 0x00, 0xc0, 0xbe, 0x80, 0xa8, 0x03, 0xae, 0x01,
    0xe9, 0x4d, 0xfd, 0x39, 0x03, 0x32, 0x5f, 0x50, 0x9c, 0xd7, 0x5b, 0xb4, 0xf0, 0x49, 0x4e, 0xe7,
    0x36, 0x59, 0x67, 0x30, 0x46, 0xd4, 0xab, 0xda, 0x2e, 0x9b, 0x14, 0x24, 0x39, 0x3c, 0xa9, 0x09,
    0x3d, 0x32, 0x81, 0xd5, 0xdb, 0xca, 0x39, 0xa9, 0xe2, 0xda, 0xad, 0xcf, 0x05, 0x3c, 0x4d, 0xcc,
    0x02, 0x4e, 0xd5, 0x2b, 0x89, 0x07, 0xe8, 0x12, 0x05, 0x46, 0x15, 0x91, 0x4a, 0xe2, 0x73, 0xce,
    0x89, 0x9c, 0x64, 0xed, 0x47, 0x07, 0xe8, 0x02, 0xd2, 0x8e, 0xad, 0x58, 0xf1, 0xf9, 0x4d, 0x0c,
    0xa4, 0x26, 0x0b, 0x9d, 0x8b, 0x28, 0x84, 0x3c, 0x47, 0x2d, 0xc9, 0x0b, 0xc9, 0x32, 0x4e, 0xc8,
    0xff, 0x2a, 0x31, 0x3b, 0xac, 0x8f, 0xbb, 0x1f, 0xb3, 0x84, 0x12, 0x88, 0xd8, 0x5b, 0x0a, 0xa7,
    0x56, 0xd3, 0x28, 0x5c, 0xd9, 0x49, 0xa6, 0xfe, 0x0b, 0x02, 0x81, 0x81, 0x00, 0xb6, 0xa0, 0x95,
    0x13, 0x06, 0xd8, 0xc5, 0x74, 0x6f, 0x40, 0x25, 0x8a, 0xde, 0x7f, 0x4c, 0x8c, 0x1a, 0xad, 0x98,
    0x6e, 0x5d, 0x0b, 0x01, 0xc3, 0xa2, 0xe1, 0x8e, 0x19, 0x35, 0x92, 0x52, 0x80, 0xf1, 0x03, 0x0c,
    0x6c, 0x39, 0x3e, 0x6e, 0x5e, 0x58, 0x07, 0xf3, 0x67, 0x7d, 0x8d, 0x48, 0x17, 0xab, 0x8d, 0x61,
    0x00, 0x96, 0xc5, 0x0a, 0xf8, 0xea, 0xe9, 0x83, 0x41, 0xff, 0xec, 0xf9, 0x3a, 0xab, 0xbd, 0xd3,
    0x85, 0xab, 0xf7, 0x26, 0xc1, 0xc6, 0x68, 0x9f, 0x8d, 0xcc, 0xa9, 0x98, 0x81, 0x08, 0xda, 0xee,
    0x1d, 0x29, 0x90, 0xf9, 0xa5, 0xde, 0xcd, 0xb6, 0xed, 0x22, 0xdb, 0x9e, 0xff, 0x5a, 0x84, 0x60,
    0x68, 0xd1, 0x2d, 0xeb, 0x7c, 0x78, 0xea, 0x66, 0x6e, 0xb2, 0xf8, 0x72, 0xd8, 0x44, 0xc6, 0x9b,
    0x46, 0x0e, 0x4c, 0xf7, 0x2a, 0x52, 0x8b, 0x56, 0x92, 0xc7, 0xe4, 0x89, 0x1b, 0x02, 0x81, 0x80,
    0x36, 0xdc, 0x82, 0x86, 0x50, 0x35, 0xd1, 0x39, 0x75, 0x07, 0x64, 0x98, 0xf2, 0x57, 0x8a, 0xfc,
    0x79, 0x98, 0x12, 0xd2, 0x6a, 0x2b, 0x59, 0x48, 0x70, 0xfe, 0x1c, 0x11, 0xad, 0x2b, 0x15, 0x39,
    0x3a, 0xce, 0xea, 0xd8, 0x97, 0xd9, 0x8d, 0x55, 0xab, 0xf0, 0xa4, 0xcc, 0xa0, 0xac, 0xf5, 0x1c,
    0x2b, 0x1e, 0x59, 0xd4, 0xa5, 0xab, 0x87, 0x2c, 0x09, 0x00, 0x48, 0x1a, 0x02, 0xf4, 0x1d, 0x5c,
    0xfe, 0xeb, 0xd8, 0xa5, 0x35, 0xfb, 0xbc, 0x88, 0x12, 0xc9, 0xef, 0x77, 0xce, 0x5a, 0x4d, 0xa3,
    0x5d, 0x15, 0x1e, 0x42, 0x11, 0xb1, 0xca, 0xad, 0x56, 0x5e, 0xec, 0x02, 0xd6, 0x0f, 0x7d, 0x90,
    0xcd, 0x09, 0x72, 0x9f, 0x5c, 0x00, 0x6c, 0xd9, 0xa4, 0x4a, 0xcb, 0x2f, 0x7c, 0xe1, 0xc8, 0x4e,
    0x32, 0x83, 0x8c, 0x0b, 0xf9, 0x2d, 0xf9, 0x1f, 0x8f, 0x8e, 0xe7, 0x8e, 0xb9, 0x96, 0x1c, 0xad,
    0x02, 0x81, 0x80, 0x19, 0x01, 0x21, 0x88, 0x0a, 0x5e, 0xf1, 0xa2, 0x00, 0x7d, 0x6a, 0xe6, 0x79,
    0x92, 0x3a, 0x5b, 0xd0, 0x67, 0x46, 0x40, 0x8e, 0x12, 0xac, 0xba, 0x29, 0x79, 0xf2, 0x67, 0xb7,
    0x33, 0x02, 0x82, 0xce, 0xfc, 0xd8, 0xdd, 0x94, 0x74, 0xdc, 0xcd, 0xa4, 0x05, 0xea, 0xa8, 0x97,
    0xc3, 0x19, 0x44, 0xcc, 0x63, 0x3e, 0x0d, 0xc3, 0x96, 0xd4, 0xea, 0xc1, 0xd7, 0x18, 0xf6, 0x97,
    0x60, 0xcd, 0xba, 0xdf, 0xba, 0xcc, 0xd4, 0x37, 0x78, 0x4e, 0x61, 0x27, 0x96, 0x39, 0x8a, 0x43,
    0xa4, 0x50, 0xd2, 0x11, 0xf1, 0x4f, 0xba, 0xc4, 0x6f, 0x2a, 0x0f, 0x30, 0xd3, 0x3f, 0xa1, 0x76,
    0x2d, 0x55, 0xb6, 0xa6, 0xa1, 0x0b, 0x46, 0x2e, 0xa5, 0xb7, 0xe1, 0x41, 0xf8, 0xed, 0xef, 0x68,
    0x27, 0xa6, 0x29, 0xc0, 0x38, 0xe5, 0x17, 0x91, 0x6b, 0xae, 0x47, 0xa8, 0x27, 0x95, 0xc1, 0xe1,
    0x06, 0x84, 0x53, 0x02, 0x81, 0x80, 0x25, 0x70, 0x40, 0x5e, 0x85, 0x9d, 0xd6, 0xca, 0x88, 0x17,
    0xc7, 0x9c, 0x09, 0xe7, 0xb7, 0x7a, 0x51, 0x08, 0x45, 0xaf, 0x37, 0x71, 0x63, 0x56, 0xa9, 0x48,
    0xc1, 0x49, 0xe8, 0xd4, 0x03, 0xe4, 0x80, 0x68, 0xdd, 0x79, 0xdf, 0xba, 0x5b, 0x60, 0x97, 0xd1,
    0xff, 0x9e, 0x2c, 0x6c, 0x68, 0x9e, 0xc6, 0x0e, 0xd5, 0x16, 0xa1, 0x21, 0x65, 0x89, 0x70, 0x30,
    0xde, 0xe4, 0x50, 0x72, 0x3c, 0x00, 0x26, 0x56, 0xb5, 0xb2, 0xd8, 0xd5, 0xe7, 0x9f, 0x4c, 0xa8,
    0xf5, 0x75, 0xee, 0x05, 0x5e, 0x19, 0xdf, 0xb8, 0xc6, 0xa9, 0x2f, 0x57, 0x8e, 0xde, 0x5f, 0xdb,
    0x06, 0xcc, 0x20, 0x5c, 0x7b, 0x71, 0x8b, 0x06, 0x31, 0xbb, 0x1b, 0x8e, 0xfd, 0x46, 0x1c, 0x6a,
    0xa8, 0x39, 0x2d, 0xaf, 0x52, 0x42, 0x98, 0x46, 0xdf, 0x83, 0xab, 0x28, 0xa0, 0x4d, 0xcd, 0xc9,
    0xbc, 0xb9, 0x52, 0xea, 0x48, 0x54,
];

/// Its public half, SubjectPublicKeyInfo DER.
const TEST_PUBLIC_KEY_DER: [u8; 294] = [
    0x30, 0x82, 0x01, 0x22, 0x30, 0x0d, 0x06, 0x09, 0x2a, 0x86, 0x48, 0x86, 0xf7, 0x0d, 0x01, 0x01,
    0x01, 0x05, 0x00, 0x03, 0x82, 0x01, 0x0f, 0x00, 0x30, 0x82, 0x01, 0x0a, 0x02, 0x82, 0x01, 0x01,
    0x00, 0x89, 0x80, 0x56, 0xc5, 0x0f, 0xcd, 0x05, 0x24, 0x5d, 0x39, 0x5f, 0x01, 0xd5, 0x30, 0x87,
    0x4d, 0xd1, 0xd7, 0x26, 0x0d, 0x91, 0xb7, 0xac, 0x9c, 0x6c, 0xcb, 0x4c, 0x96, 0x37, 0x0f, 0xb4,
    0xe1, 0x25, 0xea, 0x35, 0x85, 0xb6, 0x5b, 0x00, 0x19, 0x8e, 0xa7, 0x71, 0xe1, 0xdd, 0x3b, 0x86,
    0xee, 0xb3, 0x52, 0x0d, 0xa0, 0xca, 0x98, 0xd4, 0xcb, 0xcd, 0x55, 0xe1, 0x4f, 0xca, 0x05, 0xcb,
    0x76, 0xd1, 0xba, 0xa3, 0x2a, 0xe9, 0x55, 0xde, 0x8d, 0x96, 0x6f, 0x17, 0xfc, 0x83, 0x07, 0xf7,
    0x22, 0xee, 0x1d, 0xd5, 0x99, 0xfc, 0x83, 0x35, 0x3a, 0x0e, 0x32, 0x14, 0x7c, 0x1c, 0xb5, 0x7b,
    0xbf, 0xd2, 0xcd, 0x57, 0xd5, 0xcd, 0x3d, 0xec, 0x90, 0xbb, 0xe2, 0x82, 0x37, 0x8e, 0x4a, 0x23,
    0x41, 0x82, 0x2e, 0xb7, 0x36, 0x21, 0xaa, 0x2e, 0x5a, 0xf4, 0x2d, 0x90, 0x0b, 0xc9, 0x2d, 0x0d,
    0x80, 0x62, 0x8b, 0x3a, 0x24, 0x73, 0xb0, 0xc8, 0x88, 0xc7, 0xcd, 0x8c, 0xc3, 0x5f, 0x82, 0xf4,
    0x85, 0x3c, 0x4c, 0xcd, 0x20, 0xe2, 0xe2, 0xec, 0x99, 0xd6, 0x51, 0xbb, 0xd3, 0xc0, 0xa9, 0xb1,
    0xdf, 0x7d, 0xc8, 0x6d, 0x48, 0xab, 0x1c, 0x51, 0x1b, 0x1a, 0xfd, 0x81, 0xd0, 0x58, 0x93, 0xe1,
    0x73, 0x8f, 0x79, 0xbb, 0x7c, 0xfe, 0x19, 0x5c, 0x70, 0xfb, 0x25, 0x74, 0x0c, 0x6d, 0xd6, 0x34,
    0x86, 0x27, 0xc3, 0x1d, 0xb2, 0x56, 0xbb, 0x2e, 0x20, 0x21, 0xad, 0xf1, 0x69, 0x66, 0x1e, 0xf4,
    0x7b, 0x93, 0x4c, 0x70, 0xdb, 0xfd, 0xc5, 0xbc, 0xfa, 0x18, 0x12, 0x11, 0x4b, 0x21, 0x19, 0xb8,
    0xb3, 0xe2, 0x4f, 0x80, 0xd1, 0x4a, 0xf9, 0x92, 0xbc, 0x31, 0x96, 0x6d, 0x75, 0xd7, 0x83, 0xa8,
    0xd2, 0xc5, 0x72, 0xc5, 0x68, 0x0e, 0xb4, 0x45, 0xcc, 0x09, 0x46, 0x0f, 0xcf, 0xf1, 0x5c, 0xae,
    0x29, 0x02, 0x03, 0x01, 0x00, 0x01,
];

/// Its modulus, big endian.
const TEST_MODULUS: [u8; 256] = [
    0x89, 0x80, 0x56, 0xc5, 0x0f, 0xcd, 0x05, 0x24, 0x5d, 0x39, 0x5f, 0x01, 0xd5, 0x30, 0x87, 0x4d,
    0xd1, 0xd7, 0x26, 0x0d, 0x91, 0xb7, 0xac, 0x9c, 0x6c, 0xcb, 0x4c, 0x96, 0x37, 0x0f, 0xb4, 0xe1,
    0x25, 0xea, 0x35, 0x85, 0xb6, 0x5b, 0x00, 0x19, 0x8e, 0xa7, 0x71, 0xe1, 0xdd, 0x3b, 0x86, 0xee,
    0xb3, 0x52, 0x0d, 0xa0, 0xca, 0x98, 0xd4, 0xcb, 0xcd, 0x55, 0xe1, 0x4f, 0xca, 0x05, 0xcb, 0x76,
    0xd1, 0xba, 0xa3, 0x2a, 0xe9, 0x55, 0xde, 0x8d, 0x96, 0x6f, 0x17, 0xfc, 0x83, 0x07, 0xf7, 0x22,
    0xee, 0x1d, 0xd5, 0x99, 0xfc, 0x83, 0x35, 0x3a, 0x0e, 0x32, 0x14, 0x7c, 0x1c, 0xb5, 0x7b, 0xbf,
    0xd2, 0xcd, 0x57, 0xd5, 0xcd, 0x3d, 0xec, 0x90, 0xbb, 0xe2, 0x82, 0x37, 0x8e, 0x4a, 0x23, 0x41,
    0x82, 0x2e, 0xb7, 0x36, 0x21, 0xaa, 0x2e, 0x5a, 0xf4, 0x2d, 0x90, 0x0b, 0xc9, 0x2d, 0x0d, 0x80,
    0x62, 0x8b, 0x3a, 0x24, 0x73, 0xb0, 0xc8, 0x88, 0xc7, 0xcd, 0x8c, 0xc3, 0x5f, 0x82, 0xf4, 0x85,
    0x3c, 0x4c, 0xcd, 0x20, 0xe2, 0xe2, 0xec, 0x99, 0xd6, 0x51, 0xbb, 0xd3, 0xc0, 0xa9, 0xb1, 0xdf,
    0x7d, 0xc8, 0x6d, 0x48, 0xab, 0x1c, 0x51, 0x1b, 0x1a, 0xfd, 0x81, 0xd0, 0x58, 0x93, 0xe1, 0x73,
    0x8f, 0x79, 0xbb, 0x7c, 0xfe, 0x19, 0x5c, 0x70, 0xfb, 0x25, 0x74, 0x0c, 0x6d, 0xd6, 0x34, 0x86,
    0x27, 0xc3, 0x1d, 0xb2, 0x56, 0xbb, 0x2e, 0x20, 0x21, 0xad, 0xf1, 0x69, 0x66, 0x1e, 0xf4, 0x7b,
    0x93, 0x4c, 0x70, 0xdb, 0xfd, 0xc5, 0xbc, 0xfa, 0x18, 0x12, 0x11, 0x4b, 0x21, 0x19, 0xb8, 0xb3,
    0xe2, 0x4f, 0x80, 0xd1, 0x4a, 0xf9, 0x92, 0xbc, 0x31, 0x96, 0x6d, 0x75, 0xd7, 0x83, 0xa8, 0xd2,
    0xc5, 0x72, 0xc5, 0x68, 0x0e, 0xb4, 0x45, 0xcc, 0x09, 0x46, 0x0f, 0xcf, 0xf1, 0x5c, 0xae, 0x29,
];

/// Its public exponent, 65537, big endian.
const TEST_EXPONENT: [u8; 3] = [0x01, 0x00, 0x01];

/// The public key as PEM text.
fn test_public_pem() -> String {
    let body = STANDARD.encode(TEST_PUBLIC_KEY_DER);
    let mut pem = String::from("-----BEGIN PUBLIC KEY-----\n");
    for chunk in body.as_bytes().chunks(64) {
        pem.push_str(std::str::from_utf8(chunk).unwrap());
        pem.push('\n');
    }
    pem.push_str("-----END PUBLIC KEY-----\n");
    pem
}

fn test_n() -> String {
    URL_SAFE_NO_PAD.encode(TEST_MODULUS)
}

fn test_e() -> String {
    URL_SAFE_NO_PAD.encode(TEST_EXPONENT)
}

fn now() -> i64 {
    SystemTime::now().duration_since(UNIX_EPOCH).unwrap().as_secs() as i64
}

fn sign_claims(claims: serde_json::Value) -> String {
    let key = EncodingKey::from_rsa_der(&TEST_SIGNING_KEY_DER);
    encode(&Header::new(Algorithm::RS256), &claims, &key).unwrap()
}

fn claims(sub: &str, iss: &str, exp_offset: i64) -> serde_json::Value {
    let mut map = serde_json::Map::new();
    map.insert("sub".to_string(), serde_json::Value::from(sub));
    map.insert("iss".to_string(), serde_json::Value::from(iss));
    map.insert("nbf".to_string(), serde_json::Value::from(now() - 10));
    map.insert("exp".to_string(), serde_json::Value::from(now() + exp_offset));
    serde_json::Value::Object(map)
}

fn sign(sub: &str, iss: &str, exp_offset: i64) -> String {
    sign_claims(claims(sub, iss, exp_offset))
}

fn test_verifier() -> TokenVerifier {
    let key = key_from_pem(test_public_pem().as_bytes()).unwrap();
    TokenVerifier::new(key, Some(ISSUER.to_string()), None).unwrap()
}

#[test]
fn bearer_header_is_parsed() {
    assert_eq!(bearer_from_header(Some("Bearer abc.def")), Ok("abc.def"));
    assert_eq!(bearer_from_header(Some("bearer abc")), Ok("abc"));
    assert_eq!(bearer_from_header(Some("Bearer   abc  ")), Ok("abc"));
    assert_eq!(bearer_from_header(Some("Bearer \tabc\n")), Ok("abc"));
    assert_eq!(bearer_from_header(None), Err(ApiError::MissingToken));
    assert_eq!(bearer_from_header(Some("Bearer ")), Err(ApiError::MissingToken));
    assert_eq!(bearer_from_header(Some("Bearer    ")), Err(ApiError::MissingToken));
    assert_eq!(bearer_from_header(Some("Basic abc")), Err(ApiError::MissingToken));
    assert_eq!(bearer_from_header(Some("BEARER abc")), Err(ApiError::MissingToken));
    assert_eq!(bearer_from_header(Some("Bearerabc")), Err(ApiError::MissingToken));
    assert_eq!(bearer_from_header(Some("")), Err(ApiError::MissingToken));
}

#[test]
fn valid_token_yields_its_subject() {
    let v = test_verifier();
    let token = sign("user-123", ISSUER, 3600);
    assert_eq!(v.verify(&token).unwrap().sub, "user-123");
}

#[test]
fn whitespace_inside_the_token_is_ignored() {
    let v = test_verifier();
    let token = sign("user-123", ISSUER, 3600);
    let (a, b) = token.split_at(20);
    let spaced = format!(" {a}\n {b}\t");
    assert_eq!(v.verify(&spaced).unwrap().sub, "user-123");
}

#[test]
fn token_with_wrong_issuer_is_refused() {
    let v = test_verifier();
    let token = sign("user-123", "https://evil.example.com|login", 3600);
    assert!(matches!(v.verify(&token), Err(ApiError::InvalidToken(_))));
}

#[test]
fn token_that_expired_is_refused() {
    let v = test_verifier();
    let token = sign("user-123", ISSUER, -3600);
    assert!(matches!(v.verify(&token), Err(ApiError::InvalidToken(_))));
}

#[test]
fn token_within_the_leeway_is_accepted() {
    let v = test_verifier();
    // expired 10 seconds ago, inside the 30 second leeway
    let token = sign("user-123", ISSUER, -10);
    assert_eq!(v.verify(&token).unwrap().sub, "user-123");
}

#[test]
fn token_not_yet_valid_is_refused() {
    let v = test_verifier();
    let mut c = claims("user-123", ISSUER, 3600);
    c["nbf"] = serde_json::Value::from(now() + 600);
    assert!(matches!(v.verify(&sign_claims(c)), Err(ApiError::InvalidToken(_))));
}

#[test]
fn token_without_subject_is_refused() {
    let v = test_verifier();
    let mut c = claims("x", ISSUER, 3600);
    c.as_object_mut().unwrap().remove("sub");
    let err = v.verify(&sign_claims(c)).unwrap_err();
    assert_eq!(err, ApiError::InvalidToken("JSON error: missing field `sub`".to_string()));
}

#[test]
fn garbage_and_tampered_tokens_are_refused() {
    let v = test_verifier();
    assert!(matches!(v.verify("not-a-jwt"), Err(ApiError::InvalidToken(_))));
    let token = sign("user-123", ISSUER, 3600);
    let other = sign("mallory", ISSUER, 3600);
    let parts: Vec<&str> = token.split('.').collect();
    let other_parts: Vec<&str> = other.split('.').collect();
    let forged = format!("{}.{}.{}", parts[0], other_parts[1], parts[2]);
    assert!(matches!(v.verify(&forged), Err(ApiError::InvalidToken(_))));
}

#[test]
fn authenticate_returns_the_token_subject() {
    let v = test_verifier();
    let token = sign("alice", ISSUER, 3600);
    let header = format!("Bearer {token}");
    assert_eq!(authenticate(&v, Some(&header)).unwrap(), "alice");
    assert_eq!(authenticate(&v, None), Err(ApiError::MissingToken));
    assert!(matches!(authenticate(&v, Some("Bearer nope")), Err(ApiError::InvalidToken(_))));
}

#[test]
fn configured_issuer_wins_over_discovered() {
    let key = key_from_pem(test_public_pem().as_bytes()).unwrap();
    let v = TokenVerifier::new(key.clone(), Some(ISSUER.to_string()), Some("other|login".to_string()))
        .unwrap();
    assert_eq!(v.verify(&sign("u", ISSUER, 3600)).unwrap().sub, "u");
    assert!(v.verify(&sign("u", "other|login", 3600)).is_err());

    let v = TokenVerifier::new(key.clone(), None, Some("other|login".to_string())).unwrap();
    assert_eq!(v.verify(&sign("u", "other|login", 3600)).unwrap().sub, "u");

    assert_eq!(
        TokenVerifier::new(key, None, None).unwrap_err(),
        "KC_JWT_ISSUER is required when the key is given as a PEM"
    );
}

#[test]
fn invalid_pem_is_refused() {
    let err = key_from_pem(b"not a pem").unwrap_err();
    assert!(err.starts_with("identity public key is not a valid RSA PEM: "), "{err}");
}

#[test]
fn jwk_components_verify_tokens() {
    let jwk = Jwk {
        kty: "RSA".to_string(),
        usage: Some("sig".to_string()),
        n: Some(test_n()),
        e: Some(test_e()),
    };
    let key = key_from_jwk(&jwk).unwrap();
    let v = TokenVerifier::new(key, None, Some(ISSUER.to_string())).unwrap();
    assert_eq!(v.verify(&sign("bob", ISSUER, 3600)).unwrap().sub, "bob");
}

#[test]
fn jwk_without_components_is_refused() {
    let jwk = Jwk { kty: "RSA".to_string(), usage: None, n: None, e: Some("AQAB".to_string()) };
    assert_eq!(key_from_jwk(&jwk).unwrap_err(), "JWK is missing the RSA n/e components");
    let bad = Jwk {
        kty: "RSA".to_string(),
        usage: None,
        n: Some("***".to_string()),
        e: Some("AQAB".to_string()),
    };
    assert!(key_from_jwk(&bad).unwrap_err().starts_with("bad RSA components in JWK: "));
}

#[test]
fn first_rsa_signing_key_of_the_set_is_used() {
    let ec = Jwk { kty: "EC".to_string(), usage: Some("sig".to_string()), n: None, e: None };
    let enc = Jwk {
        kty: "RSA".to_string(),
        usage: Some("enc".to_string()),
        n: Some("***".to_string()),
        e: Some("AQAB".to_string()),
    };
    let good = Jwk {
        kty: "RSA".to_string(),
        usage: None,
        n: Some(test_n()),
        e: Some(test_e()),
    };
    let key = key_from_jwks(&vec![ec.clone(), enc.clone(), good], "https://idp/jwks").unwrap();
    assert!(matches!(key, RsaPublicKey::Components { .. }));
    assert_eq!(
        key_from_jwks(&vec![ec, enc], "https://idp/jwks").unwrap_err(),
        "no RSA signing key in the JWKS at 'https://idp/jwks'"
    );
}

#[test]
fn failed_refresh_keeps_the_current_key() {
    let mut v = test_verifier();
    v.apply_refresh(Err("network down".to_string()));
    assert_eq!(v.verify(&sign("u", ISSUER, 3600)).unwrap().sub, "u");
    v.apply_refresh(Ok(RsaPublicKey::Components { n: "AQAB".to_string(), e: "AQAB".to_string() }));
    assert!(v.verify(&sign("u", ISSUER, 3600)).is_err());
}

#[test]
fn decoded_outcomes_map_to_claims_or_refusals() {
    assert_eq!(claims_from_decoded(Ok(Some("s".to_string()))).unwrap().sub, "s");
    assert_eq!(
        claims_from_decoded(Err("ExpiredSignature".to_string())),
        Err(ApiError::InvalidToken("ExpiredSignature".to_string()))
    );
    assert!(matches!(claims_from_decoded(Ok(None)), Err(ApiError::InvalidToken(_))));
}

#[test]
fn discovery_url_appends_the_well_known_path() {
    assert_eq!(
        discovery_url("https://vault.example.com/identity"),
        "https://vault.example.com/identity/.well-known/openid-configuration"
    );
}

#[test]
fn discovery_retries_then_gives_up() {
    let mut retry = DiscoveryRetry::new("https://idp/x".to_string());
    assert!(matches!(retry.next_action(), DiscoveryAction::Fetch { delay_secs: 0 }));
    retry.record_failure("refused".to_string());
    assert!(matches!(retry.next_action(), DiscoveryAction::Fetch { delay_secs: 2 }));
    for _ in 1..DISCOVERY_ATTEMPTS {
        assert!(matches!(retry.next_action(), DiscoveryAction::Fetch { .. }));
        retry.record_failure("timeout".to_string());
    }
    match retry.next_action() {
        DiscoveryAction::GiveUp(m) => assert_eq!(m, "giving up on 'https://idp/x': timeout"),
        other => panic!("expected to give up, got {other:?}"),
    }
}
