//! Value objects of authentication policies: the factors a policy can
//! demand, the ways a request can be denied, and related classifications.
//! These are carried by authentication-flavoured policies; the matching
//! workflows live in the surrounding service.

use vstd::prelude::*;

verus! {

/// How a request was authenticated, relative to the organization.
#[derive(Debug, Clone, PartialEq, Eq)]
pub enum AuthenticationType {
    /// An employee or trusted partner.
    Internal,
    /// A customer or unknown user.
    External,
    /// Authenticated through an external identity provider.
    Federated { provider: String },
}

/// An authentication factor a policy can require.
#[derive(Debug, Clone, PartialEq, Eq, Hash)]
pub enum AuthenticationFactor {
    Password,
    Otp,
    Sms,
    Email,
    Biometric(BiometricType),
    HardwareToken(TokenType),
    SoftwareToken,
    SecurityQuestion,
    EmailVerification,
    SMSVerification,
    PushNotification,
    CertificateBased,
}

/// A kind of biometric authentication.
#[derive(Debug, Clone, PartialEq, Eq, Hash, Structural)]
pub enum BiometricType {
    Fingerprint,
    FaceRecognition,
    IrisScanning,
    VoiceRecognition,
    BehavioralBiometrics,
}

/// A kind of hardware token.
#[derive(Debug, Clone, PartialEq, Eq, Hash, Structural)]
pub enum TokenType {
    YubiKey,
    SmartCard,
    USBToken,
    NFCToken,
    BluetoothToken,
}

/// Why an authentication request was denied.
#[derive(Debug, Clone, PartialEq, Eq)]
pub enum DenialReason {
    InvalidCredentials,
    AccountLocked,
    AccountDisabled,
    AccountExpired,
    PasswordExpired,
    TooManyAttempts,
    RiskThresholdExceeded,
    LocationRestricted,
    TimeRestricted,
    DeviceNotTrusted,
    InsufficientFactors,
    Other(String),
}

/// A daily time window, in hours and minutes.
#[derive(Debug, Clone, Copy, PartialEq, Eq, Structural)]
pub struct TimeRange {
    pub start_hour: u8,
    pub start_minute: u8,
    pub end_hour: u8,
    pub end_minute: u8,
}

/// A kind of external identity provider.
#[derive(Debug, Clone, PartialEq, Eq)]
pub enum ProviderType {
    OAuth2,
    SAML,
    OpenIDConnect,
    LDAP,
    Custom(String),
}

/// How thoroughly an external identity was verified.
#[derive(Debug, Clone, Copy, PartialEq, Eq, Structural, PartialOrd, Ord)]
pub enum IdentityVerificationLevel {
    /// No verification.
    Unverified,
    /// Email verification only.
    Email,
    /// Phone verification.
    Phone,
    /// Government document verification.
    GovernmentId,
    /// In-person verification.
    InPerson,
}

/// A factor that raises the assessed risk of a request.
#[derive(Debug, Clone, PartialEq, Eq, Structural)]
pub enum RiskFactor {
    UnknownLocation,
    UnusualTime,
    NewDevice,
    FailedAttempts,
    SuspiciousPattern,
    HighValueTransaction,
}

/// The assessed risk of an authentication request.
#[derive(Debug, Clone, Copy, PartialEq, Eq, Structural, Hash)]
pub enum RiskLevel {
    Low,
    Medium,
    High,
    Critical,
}

} // verus!
